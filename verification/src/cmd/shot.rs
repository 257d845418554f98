//! `barista shot`: one phase on the warm daemon.
//!
//! A run that finds the daemon, the lockfile and the POM as the last successful run left
//! them skips the pour.

use vstd::prelude::*;
use vstd::string::*;

use crate::action_graph;
use crate::action_graph::{ActionGraph, ShotGraphError};
use crate::cli::PourArgs;
use crate::cmd::ci_repro;
use crate::cmd::ci_repro::ReproducibilitySeed;
use crate::cmd::maven_vocab;
use crate::cmd::maven_vocab::MavenPhase;
use crate::cmd::verify;
use crate::cmd::verify::{LifecycleConfig, LifecycleEnv, ModuleOutcome, ModuleRun, Printed};
use crate::daemon::launcher;
use crate::daemon::launcher::{LaunchPlan, LauncherError};
use crate::daemon::respawn;
use crate::daemon::respawn::{ActionResult, RespawnError, RespawnOutcome};
use crate::daemon::workers;
use crate::digest;
use crate::output::report::VerifyReport;
use crate::paths;
use crate::project;
use crate::project::{ProjectRoot, ResolveError};
use crate::text;

verus! {

/// The leaf name of the record of the last shot.
pub const LAST_SHOT_LEAF: &'static str = "last-shot.toml";

/// The version of the record's shape.
pub const CACHE_SCHEMA_VERSION: u32 = 1;

/// The directory of the records below the home directory.
pub const USER_CACHE_DIR_LEAF: &'static str = ".barista/cache";

/// The directory of the records where there is no home directory.
pub const TEMP_CACHE_LEAF: &'static str = "barista-cache";

/// What is told where no phase is given.
pub const USAGE: &'static str =
    "barista: shot requires a phase expression, e.g. `barista shot test`.\n\nThe phase is a single Maven lifecycle phase name (compile, test,\npackage, verify, install, deploy, etc.). Trailing args are\nforwarded to the daemon as the action arguments.";

// ---------------------------------------------------------------------------
// Arguments
// ---------------------------------------------------------------------------

/// The phase and what is forwarded with it.
pub fn split_expr(args: &Vec<String>) -> (r: Option<(String, Vec<String>)>)
    ensures
        match r {
            None => args@.len() == 0,
            Some((expr, rest)) => args@.len() > 0 && expr@ == args@[0]@ && text::texts(rest@)
                == text::texts(args@).skip(1),
        },
{
    if args.len() == 0 {
        return None;
    }
    let mut rest: Vec<String> = Vec::new();
    let ghost all = text::texts(args@);
    let mut k: usize = 1;
    assert(text::texts(rest@) =~= all.subrange(1, 1));
    while k < args.len()
        invariant
            1 <= k <= args@.len(),
            all == text::texts(args@),
            text::texts(rest@) == all.subrange(1, k as int),
        decreases args@.len() - k,
    {
        let ghost before = text::texts(rest@);
        rest.push(args[k].clone());
        proof {
            assert(text::texts(rest@) =~= before.push(all[k as int]));
            assert(all.subrange(1, k + 1) =~= all.subrange(1, k as int).push(all[k as int]));
        }
        k = k + 1;
    }
    assert(all.subrange(1, args@.len() as int) =~= all.skip(1));
    Some((args[0].clone(), rest))
}

/// What `shot` does with its arguments.
#[derive(Debug)]
pub enum ShotRoute {
    /// Print a message and exit with code 2.
    Refuse(String),
    /// Run upstream Maven.
    Fork(MavenPhase, Vec<String>),
    /// Run on the daemon.
    Daemon { expr: String, forwarded: Vec<String> },
}

/// What is told where upstream Maven is asked for something that is no phase.
pub open spec fn unknown_phase_text(expr: Seq<char>) -> Seq<char> {
    "barista: shot --no-daemon only supports known Maven lifecycle phases (clean, compile, test, package, verify, install, deploy, site); got `"@
        + expr + "`."@
}

/// What `shot` does with its arguments.
pub fn run(args: &Vec<String>, no_daemon: bool) -> (r: ShotRoute)
    ensures
        if args@.len() == 0 {
            r matches ShotRoute::Refuse(m) && m@ == USAGE@
        } else if !no_daemon {
            r matches ShotRoute::Daemon { expr, forwarded } && expr@ == args@[0]@ && text::texts(
                forwarded@,
            ) == text::texts(args@).skip(1)
        } else {
            match r {
                ShotRoute::Fork(p, forwarded) => maven_vocab::phase_name(p) == args@[0]@
                    && text::texts(forwarded@) == text::texts(args@).skip(1),
                ShotRoute::Refuse(m) => m@ == unknown_phase_text(args@[0]@) && forall|
                    p: MavenPhase,
                | #[trigger]
                    maven_vocab::phase_name(p) != args@[0]@,
                _ => false,
            }
        },
{
    match split_expr(args) {
        None => ShotRoute::Refuse(USAGE.to_owned()),
        Some((expr, forwarded)) => {
            if no_daemon {
                match MavenPhase::from_phase_name(expr.as_str()) {
                    Some(p) => ShotRoute::Fork(p, forwarded),
                    None => {
                        let mut s =
                            "barista: shot --no-daemon only supports known Maven lifecycle phases (clean, compile, test, package, verify, install, deploy, site); got `".to_owned();
                        s.append(expr.as_str());
                        s.append("`.");
                        ShotRoute::Refuse(s)
                    },
                }
            } else {
                ShotRoute::Daemon { expr, forwarded }
            }
        },
    }
}

// ---------------------------------------------------------------------------
// Errors
// ---------------------------------------------------------------------------

/// Why `shot` failed.
#[derive(Debug)]
pub enum ShotError {
    /// The project was not found.
    Project(ResolveError),
    /// The configuration could not be loaded.
    Config(String),
    /// The expression names no phase.
    Graph(ShotGraphError),
    /// The worker count is malformed.
    Workers { detail: String },
    /// The daemon could not be reached or started.
    Launcher(LauncherError),
    /// The artifacts could not be materialized.
    Pour { detail: String },
    /// Connecting to the daemon failed.
    DaemonConnect { phase: String, socket: String, detail: String },
    /// The channel to the daemon failed.
    Ipc { phase: String, detail: String },
    /// The daemon reported an error.
    DaemonError { phase: String, code: String, message: String },
    /// The daemon crashed and no attempt is left.
    PersistentCrash { phase: String },
    /// The daemon went away before an action ended.
    PrematureClose { phase: String },
}

/// The exit code of an error: 2 where the user can fix the setup, 1 otherwise.
pub open spec fn error_exit_code(e: ShotError) -> i32 {
    match e {
        ShotError::Project(_) => 2,
        ShotError::Config(_) => 2,
        ShotError::Graph(_) => 2,
        ShotError::Workers { .. } => 2,
        ShotError::Pour { .. } => 2,
        _ => 1,
    }
}

/// The message of an unknown phase.
pub open spec fn graph_text(e: ShotGraphError) -> Seq<char> {
    match e {
        ShotGraphError::UnknownPhase { expr } => "unknown lifecycle phase `"@ + expr@ + "`"@,
    }
}

/// The message of an error.
pub open spec fn shot_text(e: ShotError) -> Seq<char> {
    match e {
        ShotError::Project(p) => "project setup: "@ + project::fault_text(p@),
        ShotError::Config(d) => "config load: "@ + d@,
        ShotError::Graph(g) => "invalid phase expression: "@ + graph_text(g),
        ShotError::Workers { detail } => "workers config: "@ + detail@,
        ShotError::Launcher(le) => launcher::launcher_text(le),
        ShotError::Pour { detail } =>
            "pour step (required before shot when lockfile is dirty or daemon is cold): "@ + detail@
                + "\n  hint: run `barista pull` first to resolve dependencies, then re-run `barista shot`"@,
        ShotError::DaemonConnect { phase, socket, detail } => "phase "@ + phase@
            + ": connect to daemon at "@ + text::quoted_path_text(socket@) + ": "@ + detail@,
        ShotError::Ipc { phase, detail } => "phase "@ + phase@ + ": ipc: "@ + detail@,
        ShotError::DaemonError { phase, code, message } => "phase "@ + phase@
            + ": daemon error: "@ + code@ + ": "@ + message@,
        ShotError::PersistentCrash { phase } => "phase "@ + phase@
            + ": persistent daemon crash — barback crashed mid-action twice in a row ("@
            + respawn::DAEMON_CRASHED_CODE@
            + "). The daemon may be in a persistent failure mode; inspect daemon logs via `BARISTA_BARBACK_VERBOSE=1 barista shot "@
            + phase@ + "`."@,
        ShotError::PrematureClose { phase } => "phase "@ + phase@
            + ": daemon disconnected before action terminated"@,
    }
}

impl ShotError {
    /// The exit code of the process.
    pub fn exit_code(&self) -> (r: i32)
        ensures
            r == error_exit_code(*self),
    {
        match self {
            ShotError::Project(_) => 2,
            ShotError::Config(_) => 2,
            ShotError::Graph(_) => 2,
            ShotError::Workers { .. } => 2,
            ShotError::Pour { .. } => 2,
            _ => 1,
        }
    }

    /// The message of this error.
    pub fn to_message(&self) -> (r: String)
        ensures
            r@ == shot_text(*self),
    {
        match self {
            ShotError::Project(p) => text::two("project setup: ", p.to_message().as_str()),
            ShotError::Config(d) => text::two("config load: ", d.as_str()),
            ShotError::Graph(g) => text::two(
                "invalid phase expression: ",
                g.to_message().as_str(),
            ),
            ShotError::Workers { detail } => text::two("workers config: ", detail.as_str()),
            ShotError::Launcher(le) => le.to_message(),
            ShotError::Pour { detail } => {
                let mut s = text::two(
                    "pour step (required before shot when lockfile is dirty or daemon is cold): ",
                    detail.as_str(),
                );
                s.append(
                    "\n  hint: run `barista pull` first to resolve dependencies, then re-run `barista shot`",
                );
                s
            },
            ShotError::DaemonConnect { phase, socket, detail } => {
                let mut s = text::four(
                    "phase ",
                    phase.as_str(),
                    ": connect to daemon at ",
                    text::quoted_path(socket.as_str()).as_str(),
                );
                s.append(": ");
                s.append(detail.as_str());
                s
            },
            ShotError::Ipc { phase, detail } => text::four(
                "phase ",
                phase.as_str(),
                ": ipc: ",
                detail.as_str(),
            ),
            ShotError::DaemonError { phase, code, message } => {
                let mut s = text::four(
                    "phase ",
                    phase.as_str(),
                    ": daemon error: ",
                    code.as_str(),
                );
                s.append(": ");
                s.append(message.as_str());
                s
            },
            ShotError::PersistentCrash { phase } => {
                let mut s = text::four(
                    "phase ",
                    phase.as_str(),
                    ": persistent daemon crash — barback crashed mid-action twice in a row (",
                    respawn::DAEMON_CRASHED_CODE,
                );
                s.append(
                    "). The daemon may be in a persistent failure mode; inspect daemon logs via `BARISTA_BARBACK_VERBOSE=1 barista shot ",
                );
                s.append(phase.as_str());
                s.append("`.");
                s
            },
            ShotError::PrematureClose { phase } => {
                let mut s = text::two("phase ", phase.as_str());
                s.append(": daemon disconnected before action terminated");
                s
            },
        }
    }
}

/// Whether `v` is the error of a shot whose action for `phase` failed with `e`.
pub open spec fn is_classified(phase: Seq<char>, e: RespawnError, v: ShotError) -> bool {
    match e {
        RespawnError::Launcher(le) => v == ShotError::Launcher(le),
        RespawnError::PersistentCrash => v matches ShotError::PersistentCrash { phase: p } && p@
            == phase,
        RespawnError::Connect { socket, source } => v matches ShotError::DaemonConnect {
            phase: p,
            socket: s,
            detail,
        } && p@ == phase && s == socket && detail == source,
        RespawnError::Ipc { detail } => v matches ShotError::Ipc { phase: p, detail: d } && p@
            == phase && d == detail,
        RespawnError::DaemonProtocolError { code, message } => v matches ShotError::DaemonError {
            phase: p,
            code: c,
            message: m,
        } && p@ == phase && c == code && m == message,
        RespawnError::PrematureClose => v matches ShotError::PrematureClose { phase: p } && p@
            == phase,
    }
}

/// The error of a shot whose action for `phase` failed with `e`.
pub fn classify_respawn_error(phase: &str, e: RespawnError) -> (r: ShotError)
    ensures
        is_classified(phase@, e, r),
{
    match e {
        RespawnError::Launcher(le) => ShotError::Launcher(le),
        RespawnError::PersistentCrash => ShotError::PersistentCrash { phase: phase.to_owned() },
        RespawnError::Connect { socket, source } => ShotError::DaemonConnect {
            phase: phase.to_owned(),
            socket,
            detail: source,
        },
        RespawnError::Ipc { detail } => ShotError::Ipc { phase: phase.to_owned(), detail },
        RespawnError::DaemonProtocolError { code, message } => ShotError::DaemonError {
            phase: phase.to_owned(),
            code,
            message,
        },
        RespawnError::PrematureClose => ShotError::PrematureClose { phase: phase.to_owned() },
    }
}

// ---------------------------------------------------------------------------
// The record of the last shot
// ---------------------------------------------------------------------------

/// What the last successful shot of a project left behind.
#[derive(Debug)]
pub struct LastShotCache {
    pub version: u32,
    /// The signature in the lockfile.
    pub lockfile_signature: String,
    /// The modification time of the POM, in nanoseconds since the epoch.
    pub pom_mtime_ns: i64,
    pub daemon_pid: u32,
    /// The time of the shot, in seconds since the epoch.
    pub last_shot_unix: i64,
}

/// The key of a project: the digest of its path, in hexadecimal.
pub fn project_root_key(project_root: &str) -> (r: String)
    ensures
        r@ == text::hex(digest::sha256(project_root.spec_bytes())),
{
    digest::hex_digest(project_root)
}

/// The directory of the records.
pub open spec fn records_dir(home: Option<&str>, temp: Seq<char>) -> Seq<char> {
    match home {
        Some(h) => paths::joined_path(h@, USER_CACHE_DIR_LEAF@),
        None => paths::joined_path(temp, TEMP_CACHE_LEAF@),
    }
}

/// The directory of the records: below the home directory, else below the one for temporary
/// files.
pub fn cache_root(home: Option<&str>, temp_dir: &str) -> (r: String)
    ensures
        r@ == records_dir(home, temp_dir@),
{
    match home {
        Some(h) => paths::join(h, USER_CACHE_DIR_LEAF),
        None => paths::join(temp_dir, TEMP_CACHE_LEAF),
    }
}

/// The file of a project's record. Projects at different paths have different keys, so their
/// records do not meet.
pub fn last_shot_cache_path(project_root: &str, home: Option<&str>, temp_dir: &str) -> (r: String)
    ensures
        r@ == paths::joined_path(
            paths::joined_path(
                records_dir(home, temp_dir@),
                text::hex(digest::sha256(project_root.spec_bytes())),
            ),
            LAST_SHOT_LEAF@,
        ),
{
    let dir = paths::join(
        cache_root(home, temp_dir).as_str(),
        project_root_key(project_root).as_str(),
    );
    paths::join(dir.as_str(), LAST_SHOT_LEAF)
}

/// Nanoseconds since the epoch, at most `i64::MAX` on either side.
pub open spec fn nanos_since_epoch(before_epoch: bool, secs: nat, nanos: nat) -> int {
    let n = secs * 1_000_000_000 + nanos;
    let capped = if n > i64::MAX {
        i64::MAX as int
    } else {
        n as int
    };
    if before_epoch {
        -capped
    } else {
        capped
    }
}

/// A modification time as a record holds it: its distance from the epoch is given, and on
/// which side it lies.
pub fn pom_mtime_ns(before_epoch: bool, secs: u64, nanos: u32) -> (r: i64)
    ensures
        r == nanos_since_epoch(before_epoch, secs as nat, nanos as nat),
{
    assert(secs * 1_000_000_000 <= 0xffff_ffff_ffff_ffff * 1_000_000_000) by (nonlinear_arith)
        requires
            secs <= 0xffff_ffff_ffff_ffff,
    ;
    let n: u128 = (secs as u128) * 1_000_000_000 + (nanos as u128);
    let capped: i64 = if n > 0x7fff_ffff_ffff_ffff {
        i64::MAX
    } else {
        n as i64
    };
    if before_epoch {
        -capped
    } else {
        capped
    }
}

/// The process number in a PID file.
pub fn read_pid(contents: Option<&str>) -> (r: Option<u32>)
    ensures
        match r {
            Some(n) => contents is Some && text::unsigned_value(
                text::trimmed(contents->0@),
                u32::MAX as nat,
            ) == Some(n as nat),
            None => contents is Some ==> text::unsigned_value(
                text::trimmed(contents->0@),
                u32::MAX as nat,
            ) is None,
        },
{
    match contents {
        None => None,
        Some(s) => {
            let t = text::trim(s);
            match text::parse_unsigned(t.as_str(), 0xffff_ffff) {
                Some(n) => Some(n as u32),
                None => None,
            }
        },
    }
}

/// What a run finds of what the last one left.
#[derive(Debug)]
pub struct WarmFacts {
    /// The record, where it can be read.
    pub cache: Option<LastShotCache>,
    /// The signature in the lockfile, where it can be read.
    pub lockfile_signature: Option<String>,
    /// The modification time of the POM, where it can be read.
    pub pom_mtime_ns: Option<i64>,
    /// Whether the daemon accepts connections.
    pub socket_live: bool,
    /// The number in the PID file, where it can be read.
    pub pid: Option<u32>,
}

/// Whether everything is as the last successful shot left it.
pub open spec fn warm(f: WarmFacts) -> bool {
    &&& f.cache matches Some(c)
    &&& c.version == CACHE_SCHEMA_VERSION
    &&& f.lockfile_signature matches Some(sig) && sig@ == c.lockfile_signature@
    &&& f.pom_mtime_ns == Some(c.pom_mtime_ns)
    &&& f.socket_live
    &&& f.pid == Some(c.daemon_pid)
}

/// Whether everything is as the last successful shot left it.
pub fn is_warm_path(f: &WarmFacts) -> (r: bool)
    ensures
        r == warm(*f),
{
    let cache = match &f.cache {
        Some(c) => c,
        None => return false,
    };
    if cache.version != CACHE_SCHEMA_VERSION {
        return false;
    }
    match &f.lockfile_signature {
        Some(sig) => {
            if !text::same_text(sig.as_str(), cache.lockfile_signature.as_str()) {
                return false;
            }
        },
        None => return false,
    }
    match f.pom_mtime_ns {
        Some(t) => {
            if t != cache.pom_mtime_ns {
                return false;
            }
        },
        None => return false,
    }
    if !f.socket_live {
        return false;
    }
    match f.pid {
        Some(p) => p == cache.daemon_pid,
        None => false,
    }
}

/// Why no record could be left behind.
#[derive(Debug)]
pub enum CacheWriteError {
    MissingLockfile,
    MissingPom,
    MissingDaemonPid,
    Io(String),
    Serialize(String),
}

/// The message of an error.
pub open spec fn cache_text(e: CacheWriteError) -> Seq<char> {
    match e {
        CacheWriteError::MissingLockfile => "barista.lock missing or unreadable"@,
        CacheWriteError::MissingPom => "pom.xml missing or unreadable"@,
        CacheWriteError::MissingDaemonPid => "daemon pid file missing or unreadable"@,
        CacheWriteError::Io(d) => "io: "@ + d@,
        CacheWriteError::Serialize(d) => "serialize: "@ + d@,
    }
}

impl CacheWriteError {
    /// The message of this error.
    pub fn to_message(&self) -> (r: String)
        ensures
            r@ == cache_text(*self),
    {
        match self {
            CacheWriteError::MissingLockfile => "barista.lock missing or unreadable".to_owned(),
            CacheWriteError::MissingPom => "pom.xml missing or unreadable".to_owned(),
            CacheWriteError::MissingDaemonPid => {
                "daemon pid file missing or unreadable".to_owned()
            },
            CacheWriteError::Io(d) => text::two("io: ", d.as_str()),
            CacheWriteError::Serialize(d) => text::two("serialize: ", d.as_str()),
        }
    }
}

/// The warning about a record that could not be left behind.
pub fn cache_warning(path: &str, e: &CacheWriteError) -> (r: String)
    ensures
        r@ == "barista: warning: could not update warm-path cache at "@ + path@ + ": "@
            + cache_text(*e),
{
    text::four(
        "barista: warning: could not update warm-path cache at ",
        path,
        ": ",
        e.to_message().as_str(),
    )
}

/// Whether `c` records what was found, at the time `now`.
pub open spec fn is_record(
    c: LastShotCache,
    signature: Seq<char>,
    mtime: i64,
    pid: u32,
    now: Option<u64>,
) -> bool {
    &&& c.version == CACHE_SCHEMA_VERSION
    &&& c.lockfile_signature@ == signature
    &&& c.pom_mtime_ns == mtime
    &&& c.daemon_pid == pid
    &&& c.last_shot_unix == (match now {
        Some(n) => if n <= i64::MAX {
            n as int
        } else {
            0
        },
        None => 0,
    })
}

/// The record of a successful shot: the lockfile, the POM and the daemon have to be there.
pub fn update_last_shot_cache(
    signature: Option<String>,
    mtime: Option<i64>,
    pid: Option<u32>,
    now: Option<u64>,
) -> (r: Result<LastShotCache, CacheWriteError>)
    ensures
        match r {
            Ok(c) => signature is Some && mtime is Some && pid is Some && is_record(
                c,
                signature->0@,
                mtime->0,
                pid->0,
                now,
            ),
            Err(CacheWriteError::MissingLockfile) => signature is None,
            Err(CacheWriteError::MissingPom) => signature is Some && mtime is None,
            Err(CacheWriteError::MissingDaemonPid) => signature is Some && mtime is Some
                && pid is None,
            _ => false,
        },
{
    let lockfile_signature = match signature {
        Some(s) => s,
        None => return Err(CacheWriteError::MissingLockfile),
    };
    let pom_mtime_ns: i64 = match mtime {
        Some(t) => t,
        None => return Err(CacheWriteError::MissingPom),
    };
    let daemon_pid: u32 = match pid {
        Some(p) => p,
        None => return Err(CacheWriteError::MissingDaemonPid),
    };
    let last_shot_unix: i64 = match now {
        Some(n) => if n <= 0x7fff_ffff_ffff_ffff {
            n as i64
        } else {
            0
        },
        None => 0,
    };
    Ok(
        LastShotCache {
            version: CACHE_SCHEMA_VERSION,
            lockfile_signature,
            pom_mtime_ns,
            daemon_pid,
            last_shot_unix,
        },
    )
}

// ---------------------------------------------------------------------------
// The command
// ---------------------------------------------------------------------------

/// What is settled before the daemon is looked for.
#[derive(Debug)]
pub struct Prepared {
    pub graph: ActionGraph,
    /// What `--ci` adds to every action.
    pub seed: Option<ReproducibilitySeed>,
    /// The user's own arguments.
    pub arguments: Vec<String>,
    pub plan: LaunchPlan,
}

/// Whether `p` is what a shot settles before the daemon is looked for.
pub open spec fn is_prepared(
    root: Seq<char>,
    expr: Seq<char>,
    forwarded: Seq<Seq<char>>,
    ci: bool,
    config: LifecycleConfig,
    env: LifecycleEnv,
    p: Prepared,
) -> bool {
    &&& text::texts(p.arguments@) == forwarded
    &&& match p.seed {
        Some(s) => ci && ci_repro::is_sent_seed(
            s,
            crate::facts::pairs(env.vars@),
            env.git_head,
        ),
        None => !ci,
    }
    &&& exists|m: MavenPhase| #[trigger]
        maven_vocab::phase_name(m) == expr && p.graph@ == action_graph::lifecycle_model(
            m,
            root,
            false,
        )
    &&& verify::workers_asked(env) == Ok::<nat, Seq<char>>(p.plan.workers as nat)
    &&& p.plan.socket_dir@ == verify::socket_dir_of(config.socket_dir@, text::opt_text(env.home))
    &&& p.plan.socket_path@ == paths::joined_path(p.plan.socket_dir@, launcher::SOCKET_LEAF@)
    &&& p.plan.idle_shutdown_secs == config.idle_shutdown_secs
    &&& p.plan.crash_after is None
    &&& p.plan.spawn_timeout_ms == launcher::SPAWN_TIMEOUT_MS
}

/// Whether `e` is why nothing could be settled: an unknown phase, else a malformed worker
/// count.
pub open spec fn is_unprepared(expr: Seq<char>, env: LifecycleEnv, e: ShotError) -> bool {
    match e {
        ShotError::Graph(ShotGraphError::UnknownPhase { expr: x }) => x@ == expr && forall|
            m: MavenPhase,
        | #[trigger]
            maven_vocab::phase_name(m) != expr,
        ShotError::Workers { detail } => (verify::workers_asked(env) matches Err(m) && detail@
            == workers::malformed_text(verify::workers_expr(env), m)) && exists|m: MavenPhase|
         #[trigger]
            maven_vocab::phase_name(m) == expr,
        _ => false,
    }
}

/// Settles what is needed before the daemon is looked for.
pub fn prepare(
    root: &str,
    expr: &str,
    forwarded: &Vec<String>,
    ci: bool,
    config: &LifecycleConfig,
    env: &LifecycleEnv,
) -> (r: Result<Prepared, ShotError>)
    requires
        env.cores >= 1,
    ensures
        match r {
            Ok(p) => is_prepared(
                root@,
                expr@,
                text::texts(forwarded@),
                ci,
                *config,
                *env,
                p,
            ),
            Err(e) => is_unprepared(expr@, *env, e),
        },
{
    let graph = match action_graph::shot_graph(root.to_owned(), expr) {
        Ok(g) => g,
        Err(e) => return Err(ShotError::Graph(e)),
    };
    let asked = match &env.workers_expr {
        Some(s) => s.as_str(),
        None => verify::DEFAULT_WORKERS_EXPR,
    };
    let count: usize = match workers::resolve_workers(asked, env.cores) {
        Ok(n) => n,
        Err(e) => return Err(ShotError::Workers { detail: e.to_message() }),
    };
    let home = match &env.home {
        Some(s) => Some(s.as_str()),
        None => None,
    };
    let socket_dir = verify::resolve_socket_dir(config.socket_dir.as_str(), home);
    let plan = LaunchPlan::new(socket_dir, count, config.idle_shutdown_secs);
    let seed = if ci {
        Some(ci_repro::sent_seed(&env.vars, env.git_head))
    } else {
        None
    };
    Ok(Prepared { graph, seed, arguments: text::clone_texts(forwarded), plan })
}

/// Records what an action of a shot came to. Error codes are not kept.
pub fn record(run: &mut ModuleRun, outcome: RespawnOutcome, duration_ms: u64)
    requires
        old(run).valid(),
        !old(run).is_over(),
    ensures
        final(run).valid(),
        final(run).graph == old(run).graph,
        final(run).project_root == old(run).project_root,
        final(run).arguments == old(run).arguments,
        final(run).invocations@.len() == old(run).invocations@.len() + 1,
        forall|k: int|
            0 <= k < old(run).invocations@.len() ==> final(run).invocations@[k] == old(
                run,
            ).invocations@[k],
        verify::is_invocation(
            final(run).invocations@.last(),
            old(run).graph.actions@[old(run).invocations@.len() as int].phase@,
            old(run).graph.module_root@,
            (RespawnOutcome {
                result: (ActionResult { error_code: None, ..outcome.result }),
                ..outcome
            }),
            duration_ms,
        ),
        final(run).failed_actions == (if outcome.result.exit_code != 0 {
            1int
        } else {
            0int
        }),
        final(run).respawns == verify::saturated(
            old(run).respawns as nat,
            outcome.respawns as nat,
        ),
{
    let mut outcome = outcome;
    outcome.result.error_code = None;
    run.record(outcome, duration_ms);
}

/// How far a shot has come.
#[derive(Debug)]
pub enum Stage {
    Root,
    Config { root: String },
    /// What the last shot left is being looked at.
    Probe { root: String, prepared: Prepared },
    Pour { root: String, prepared: Prepared },
    Launch { root: String, prepared: Prepared },
    Dispatch { root: String, prepared: Prepared },
    Over,
}

/// What a shot waits for.
#[derive(Debug)]
pub enum Event {
    Root(Result<ProjectRoot, ResolveError>),
    Config(Result<LifecycleConfig, String>, LifecycleEnv),
    Probe(WarmFacts),
    Pour(Result<(), String>),
    Launch(Result<(), LauncherError>),
    Dispatch(Result<ModuleOutcome, ShotError>, u64),
}

/// What a shot asks for next.
#[derive(Debug)]
pub enum Action {
    /// Load the configuration; the project's own file is given.
    LoadConfig(String),
    /// Look at what the last shot left.
    Probe,
    /// Materialize the locked artifacts.
    Pour(PourArgs),
    /// Find or start the daemon.
    Launch,
    /// Run the actions.
    Dispatch,
    /// Report; leave a record behind where asked to.
    Finish { outcome: Result<VerifyReport, ShotError>, update_cache: bool },
}

/// Whether an event is the one that a stage waits for.
pub open spec fn event_fits(stage: Stage, event: Event) -> bool {
    match event {
        Event::Root(_) => stage is Root,
        Event::Config(_, env) => stage is Config && env.cores >= 1,
        Event::Probe(_) => stage is Probe,
        Event::Pour(_) => stage is Pour,
        Event::Launch(_) => stage is Launch,
        Event::Dispatch(_, _) => stage is Dispatch,
    }
}

/// Whether `action` ends a shot with the error `e`.
pub open spec fn fails(next: Stage, action: Action, e: ShotError) -> bool {
    next is Over && action == (Action::Finish { outcome: Err(e), update_cache: false })
}

/// Whether `r` is the report of a shot.
pub open spec fn is_report(
    expr: Seq<char>,
    root: String,
    graph: ActionGraph,
    o: ModuleOutcome,
    duration_ms: u64,
    r: VerifyReport,
) -> bool {
    &&& r.project_root == root
    &&& r.phase@ == "shot:"@ + expr
    &&& r.planned_actions == graph.actions@.len()
    &&& r.executed_actions == o.executed
    &&& r.failed_actions == o.failed_actions
    &&& r.daemon_respawns == o.respawns
    &&& r.invocations == o.invocations
    &&& r.duration_ms == duration_ms
}

/// Whether `next` and `action` are what a shot for `expr` does at an event. A warm project
/// is not poured. A record is left behind where every action succeeded.
pub open spec fn is_step(
    expr: Seq<char>,
    forwarded: Seq<Seq<char>>,
    ci: bool,
    named: Option<Seq<char>>,
    stage: Stage,
    event: Event,
    next: Stage,
    action: Action,
) -> bool {
    match (stage, event) {
        (Stage::Root, Event::Root(Ok(p))) => next == (Stage::Config { root: p.root })
            && (action matches Action::LoadConfig(path) && path@ == project::config_path(named, p.root@)),
        (Stage::Root, Event::Root(Err(e))) => fails(next, action, ShotError::Project(e)),
        (Stage::Config { root }, Event::Config(Ok(config), env)) => match next {
            Stage::Probe { root: r, prepared } => r == root && action is Probe && is_prepared(
                root@,
                expr,
                forwarded,
                ci,
                config,
                env,
                prepared,
            ),
            _ => next is Over && (action matches Action::Finish { outcome: Err(e), update_cache }
                && !update_cache && is_unprepared(expr, env, e)),
        },
        (Stage::Config { root }, Event::Config(Err(d), env)) => fails(
            next,
            action,
            ShotError::Config(d),
        ),
        (Stage::Probe { root, prepared }, Event::Probe(f)) => if warm(f) {
            next == (Stage::Launch { root, prepared }) && action is Launch
        } else {
            next == (Stage::Pour { root, prepared }) && (action matches Action::Pour(a)
                && verify::is_compile_pour(a))
        },
        (Stage::Pour { root, prepared }, Event::Pour(Ok(_))) => next == (Stage::Launch {
            root,
            prepared,
        }) && action is Launch,
        (Stage::Pour { root, prepared }, Event::Pour(Err(detail))) => fails(
            next,
            action,
            (ShotError::Pour { detail }),
        ),
        (Stage::Launch { root, prepared }, Event::Launch(Ok(_))) => next == (Stage::Dispatch {
            root,
            prepared,
        }) && action is Dispatch,
        (Stage::Launch { root, prepared }, Event::Launch(Err(e))) => fails(
            next,
            action,
            ShotError::Launcher(e),
        ),
        (Stage::Dispatch { root, prepared }, Event::Dispatch(Ok(o), ms)) => next is Over && (
        action matches Action::Finish { outcome: Ok(r), update_cache } && is_report(
            expr,
            root,
            prepared.graph,
            o,
            ms,
            r,
        ) && update_cache == (o.failed_actions == 0)),
        (Stage::Dispatch { root, prepared }, Event::Dispatch(Err(e), ms)) => fails(
            next,
            action,
            e,
        ),
        _ => true,
    }
}

/// A shot that ended with an error.
fn failed(e: ShotError) -> (r: (Stage, Action))
    ensures
        fails(r.0, r.1, e),
{
    (Stage::Over, Action::Finish { outcome: Err(e), update_cache: false })
}

/// What a shot for `expr` does at an event; `forwarded` are the user's own arguments, and
/// `--config` may have named the configuration.
pub fn run_inner(
    expr: &str,
    forwarded: &Vec<String>,
    ci: bool,
    named: &Option<String>,
    stage: Stage,
    event: Event,
) -> (r: (Stage, Action))
    requires
        event_fits(stage, event),
    ensures
        is_step(
            expr@,
            text::texts(forwarded@),
            ci,
            text::opt_text(*named),
            stage,
            event,
            r.0,
            r.1,
        ),
{
    match (stage, event) {
        (Stage::Root, Event::Root(Ok(p))) => {
            let path = project::project_config(named, p.root.as_str());
            (Stage::Config { root: p.root }, Action::LoadConfig(path))
        },
        (Stage::Root, Event::Root(Err(e))) => failed(ShotError::Project(e)),
        (Stage::Config { root }, Event::Config(Ok(config), env)) => {
            match prepare(root.as_str(), expr, forwarded, ci, &config, &env) {
                Ok(prepared) => (Stage::Probe { root, prepared }, Action::Probe),
                Err(e) => failed(e),
            }
        },
        (Stage::Config { .. }, Event::Config(Err(d), _)) => failed(ShotError::Config(d)),
        (Stage::Probe { root, prepared }, Event::Probe(f)) => {
            if is_warm_path(&f) {
                (Stage::Launch { root, prepared }, Action::Launch)
            } else {
                (Stage::Pour { root, prepared }, Action::Pour(verify::compile_pour()))
            }
        },
        (Stage::Pour { root, prepared }, Event::Pour(Ok(_))) => (
            Stage::Launch { root, prepared },
            Action::Launch,
        ),
        (Stage::Pour { .. }, Event::Pour(Err(detail))) => failed(ShotError::Pour { detail }),
        (Stage::Launch { root, prepared }, Event::Launch(Ok(_))) => (
            Stage::Dispatch { root, prepared },
            Action::Dispatch,
        ),
        (Stage::Launch { .. }, Event::Launch(Err(e))) => failed(ShotError::Launcher(e)),
        (Stage::Dispatch { root, prepared }, Event::Dispatch(Ok(o), ms)) => {
            let update_cache = o.failed_actions == 0;
            let report = VerifyReport {
                project_root: root,
                phase: text::two("shot:", expr),
                planned_actions: prepared.graph.actions.len(),
                executed_actions: o.executed,
                failed_actions: o.failed_actions,
                daemon_respawns: o.respawns,
                invocations: o.invocations,
                duration_ms: ms,
            };
            (Stage::Over, Action::Finish { outcome: Ok(report), update_cache })
        },
        (Stage::Dispatch { .. }, Event::Dispatch(Err(e), _)) => failed(e),
        _ => vstd::pervasive::unreached(),
    }
}

/// What a shot prints of its outcome, and its exit code.
pub fn outcome_shown(outcome: &Result<VerifyReport, ShotError>, quiet: bool, human: bool) -> (r: (
    Printed,
    i32,
))
    ensures
        match outcome {
            Ok(report) => r.1 == (if report.failed_actions > 0 {
                1int
            } else {
                0
            }) && r.0 == (if quiet {
                Printed::Nothing
            } else {
                Printed::Report
            }),
            Err(e) => r.1 == error_exit_code(*e) && r.0 == (if human {
                Printed::ErrorText
            } else {
                Printed::ErrorDocument
            }),
        },
{
    match outcome {
        Ok(report) => {
            let code: i32 = if report.failed_actions > 0 {
                1
            } else {
                0
            };
            if quiet {
                (Printed::Nothing, code)
            } else {
                (Printed::Report, code)
            }
        },
        Err(e) => {
            let code: i32 = e.exit_code();
            if human {
                (Printed::ErrorText, code)
            } else {
                (Printed::ErrorDocument, code)
            }
        },
    }
}

// ---------------------------------------------------------------------------
// Laws
// ---------------------------------------------------------------------------

/// A run that finds everything as a recorded shot left it is warm, and any single difference
/// makes it cold.
pub proof fn record_makes_the_next_run_warm(
    f: WarmFacts,
    c: LastShotCache,
    signature: String,
    mtime: i64,
    pid: u32,
    now: Option<u64>,
)
    requires
        is_record(c, signature@, mtime, pid, now),
        f.cache == Some(c),
    ensures
        warm(f) <==> {
            &&& f.lockfile_signature matches Some(s) && s@ == signature@
            &&& f.pom_mtime_ns == Some(mtime)
            &&& f.socket_live
            &&& f.pid == Some(pid)
        },
{
}

/// A record of another shape is never taken, and neither is none at all.
pub proof fn unknown_record_is_cold(f: WarmFacts)
    requires
        f.cache matches Some(c) ==> c.version != CACHE_SCHEMA_VERSION,
    ensures
        !warm(f),
{
}

/// Only a warm project is not poured, and only a run without failures leaves a record.
pub proof fn only_warm_runs_skip_the_pour(
    expr: Seq<char>,
    forwarded: Seq<Seq<char>>,
    ci: bool,
    named: Option<Seq<char>>,
    stage: Stage,
    event: Event,
    next: Stage,
    action: Action,
)
    requires
        event_fits(stage, event),
        is_step(expr, forwarded, ci, named, stage, event, next, action),
    ensures
        stage is Probe ==> (action is Launch <==> warm(event->Probe_0)),
        stage is Probe ==> (action is Pour <==> !warm(event->Probe_0)),
        action matches Action::Finish { outcome, update_cache } ==> (update_cache ==> (outcome
            matches Ok(r) && r.failed_actions == 0)),
{
}

/// What can be mended before a shot starts exits with 2; what goes wrong while it runs exits
/// with 1.
pub proof fn exit_codes_tell_preparation_from_running(e: ShotError)
    ensures
        error_exit_code(e) == 1 || error_exit_code(e) == 2,
        error_exit_code(e) == 2 <==> (e is Project || e is Config || e is Graph || e is Workers
            || e is Pour),
        error_exit_code(e) == 1 <==> (e is Launcher || e is DaemonConnect || e is Ipc
            || e is DaemonError || e is PersistentCrash || e is PrematureClose),
{
}

/// What ended an action is reported as what it was, with the phase that it ended.
pub proof fn ended_action_keeps_its_cause(phase: Seq<char>, e: RespawnError, v: ShotError)
    requires
        is_classified(phase, e, v),
    ensures
        v is Launcher <==> e is Launcher,
        v is DaemonConnect <==> e is Connect,
        v is Ipc <==> e is Ipc,
        v is DaemonError <==> e is DaemonProtocolError,
        v is PersistentCrash <==> e is PersistentCrash,
        v is PrematureClose <==> e is PrematureClose,
        v !is Launcher ==> ("phase "@ + phase + ": "@).is_prefix_of(shot_text(v)),
        error_exit_code(v) == 1,
{
    reveal_strlit(": ");
    reveal_strlit(": connect to daemon at ");
    reveal_strlit(": ipc: ");
    reveal_strlit(": daemon error: ");
    reveal_strlit(
        ": persistent daemon crash — barback crashed mid-action twice in a row (",
    );
    reveal_strlit(": daemon disconnected before action terminated");
}

/// Records stand in the user's cache below the home directory, or among the temporary files
/// where there is no home.
pub proof fn records_stand_below_home(h: &str, temp: Seq<char>)
    ensures
        records_dir(Some(h), temp) == paths::joined_path(h@, ".barista/cache"@),
        records_dir(None, temp) == paths::joined_path(temp, "barista-cache"@),
{
}

/// A time is the count of its nanoseconds, negative before the epoch, and never beyond what
/// a record can hold.
pub proof fn times_are_counted_in_nanoseconds(secs: nat, nanos: nat)
    ensures
        secs * 1_000_000_000 + nanos <= 0x7fff_ffff_ffff_ffff ==> nanos_since_epoch(
            false,
            secs,
            nanos,
        ) == secs * 1_000_000_000 + nanos,
        secs * 1_000_000_000 + nanos > 0x7fff_ffff_ffff_ffff ==> nanos_since_epoch(
            false,
            secs,
            nanos,
        ) == 0x7fff_ffff_ffff_ffff,
        nanos_since_epoch(true, secs, nanos) == -nanos_since_epoch(false, secs, nanos),
{
}

/// A record holds what the shot saw: the lockfile, the POM, the daemon and the time.
pub proof fn record_holds_what_was_seen(
    c: LastShotCache,
    signature: Seq<char>,
    mtime: i64,
    pid: u32,
    now: u64,
)
    requires
        is_record(c, signature, mtime, pid, Some(now)),
    ensures
        c.version == 1,
        c.lockfile_signature@ == signature,
        c.pom_mtime_ns == mtime,
        c.daemon_pid == pid,
        now <= 0x7fff_ffff_ffff_ffff ==> c.last_shot_unix == now,
{
}

/// A prepared shot runs the phases that lead up to the asked one, ends with it, passes the
/// user's arguments on, and talks to the daemon of the configured directory.
pub proof fn shot_runs_what_was_asked(
    root: Seq<char>,
    expr: Seq<char>,
    forwarded: Seq<Seq<char>>,
    ci: bool,
    config: LifecycleConfig,
    env: LifecycleEnv,
    p: Prepared,
)
    requires
        is_prepared(root, expr, forwarded, ci, config, env, p),
    ensures
        text::texts(p.arguments@) == forwarded,
        p.seed is Some <==> ci,
        exists|m: MavenPhase| #[trigger]
            maven_vocab::phase_name(m) == expr && p.graph@ == action_graph::lifecycle_model(
                m,
                root,
                false,
            ),
        p.plan.socket_path@ == paths::joined_path(p.plan.socket_dir@, "barback.sock"@),
        p.plan.idle_shutdown_secs == config.idle_shutdown_secs,
        p.plan.spawn_timeout_ms == 30_000,
        p.plan.crash_after is None,
        verify::workers_asked(env) == Ok::<nat, Seq<char>>(p.plan.workers as nat),
{
}

/// The report of a shot counts what was planned and what ran, and is named after the asked
/// phase.
pub proof fn report_is_about_the_shot(
    expr: Seq<char>,
    root: String,
    graph: ActionGraph,
    o: ModuleOutcome,
    duration_ms: u64,
    r: VerifyReport,
)
    requires
        is_report(expr, root, graph, o, duration_ms, r),
    ensures
        r.phase@ == "shot:"@ + expr,
        r.project_root == root,
        r.planned_actions == graph.actions@.len(),
        r.executed_actions == o.executed,
        r.failed_actions == o.failed_actions,
        r.daemon_respawns == o.respawns,
        r.invocations == o.invocations,
        r.duration_ms == duration_ms,
{
}

/// Every step that succeeds leads to the one after it: the root, the configuration, the look
/// at the last shot, the pour, the daemon, the actions, the end. A step that fails ends the
/// shot with its own error and leaves no record.
pub proof fn steps_of_a_shot_follow_each_other(
    expr: Seq<char>,
    forwarded: Seq<Seq<char>>,
    ci: bool,
    named: Option<Seq<char>>,
    stage: Stage,
    event: Event,
    next: Stage,
    action: Action,
)
    requires
        event_fits(stage, event),
        is_step(expr, forwarded, ci, named, stage, event, next, action),
    ensures
        event matches Event::Root(Ok(p)) ==> next == (Stage::Config { root: p.root }) && action is LoadConfig,
        next is Probe ==> stage is Config && action is Probe && stage->Config_root
            == next->Probe_root,
        next is Pour ==> stage is Probe && action is Pour && stage->Probe_root == next->Pour_root
            && stage->Probe_prepared == next->Pour_prepared,
        next is Launch ==> action is Launch && (stage is Probe || stage is Pour),
        stage is Pour && next is Launch ==> stage->Pour_prepared == next->Launch_prepared,
        stage is Probe && next is Launch ==> stage->Probe_prepared == next->Launch_prepared,
        next is Dispatch ==> stage is Launch && action is Dispatch && stage->Launch_prepared
            == next->Dispatch_prepared,
        next is Over <==> action is Finish,
        event matches Event::Root(Err(e)) ==> action == (Action::Finish {
            outcome: Err(ShotError::Project(e)),
            update_cache: false,
        }),
        event matches Event::Config(Err(d), _) ==> action == (Action::Finish {
            outcome: Err(ShotError::Config(d)),
            update_cache: false,
        }),
        event matches Event::Pour(Err(detail)) ==> action == (Action::Finish {
            outcome: Err(ShotError::Pour { detail }),
            update_cache: false,
        }),
        event matches Event::Launch(Err(e)) ==> action == (Action::Finish {
            outcome: Err(ShotError::Launcher(e)),
            update_cache: false,
        }),
        event matches Event::Dispatch(Err(e), _) ==> action == (Action::Finish {
            outcome: Err(e),
            update_cache: false,
        }),
        event matches Event::Dispatch(Ok(o), _) ==> (action matches Action::Finish {
            outcome,
            update_cache,
        } && outcome is Ok && (update_cache <==> o.failed_actions == 0)),
{
}

/// The first argument is the phase and the others are passed on in their order.
pub proof fn first_argument_is_the_phase(
    args: &Vec<String>,
    r: Option<(String, Vec<String>)>,
    i: int,
)
    requires
        call_ensures(split_expr, (args,), r),
    ensures
        r is None <==> args@.len() == 0,
        r matches Some((expr, rest)) ==> expr@ == args@[0]@ && rest@.len() == args@.len() - 1 && (
        0 <= i < rest@.len() ==> rest@[i]@ == args@[i + 1]@),
{
    if let Some((expr, rest)) = r {
        assert(text::texts(rest@).len() == rest@.len());
        assert(text::texts(args@).len() == args@.len());
        if 0 <= i < rest@.len() {
            assert(text::texts(rest@)[i] == rest@[i]@);
            assert(text::texts(args@).skip(1)[i] == args@[i + 1]@);
        }
    }
}

/// A record is written exactly where the lockfile, the POM and the daemon could be seen; the
/// first that could not is named.
pub proof fn record_needs_everything_seen(
    signature: Option<String>,
    mtime: Option<i64>,
    pid: Option<u32>,
    now: Option<u64>,
    r: Result<LastShotCache, CacheWriteError>,
)
    requires
        call_ensures(update_last_shot_cache, (signature, mtime, pid, now), r),
    ensures
        r is Ok <==> signature is Some && mtime is Some && pid is Some,
        r matches Ok(c) ==> c.version == 1 && c.lockfile_signature@ == signature->0@
            && c.pom_mtime_ns == mtime->0 && c.daemon_pid == pid->0,
        signature is None ==> r == Err::<LastShotCache, CacheWriteError>(
            CacheWriteError::MissingLockfile,
        ),
        signature is Some && mtime is None ==> r == Err::<LastShotCache, CacheWriteError>(
            CacheWriteError::MissingPom,
        ),
        signature is Some && mtime is Some && pid is None ==> r == Err::<
            LastShotCache,
            CacheWriteError,
        >(CacheWriteError::MissingDaemonPid),
{
}

/// A failed action makes the shot fail; an error is always shown, in the form that was asked
/// for, and only a report can be silenced.
pub proof fn shot_shows_how_it_ended(
    outcome: &Result<VerifyReport, ShotError>,
    quiet: bool,
    human: bool,
    r: (Printed, i32),
)
    requires
        call_ensures(outcome_shown, (outcome, quiet, human), r),
    ensures
        r.1 == 0 <==> (*outcome matches Ok(report) && report.failed_actions == 0),
        *outcome is Ok ==> (r.0 is Nothing <==> quiet) && (r.0 is Report <==> !quiet) && r.1 <= 1,
        *outcome is Err ==> (r.0 is ErrorText <==> human) && (r.0 is ErrorDocument <==> !human),
{
}

/// A process id is the number that the file holds, whatever space stands around it.
pub proof fn pid_is_the_number_in_its_file(contents: Option<&str>, r: Option<u32>, n: u32)
    requires
        call_ensures(read_pid, (contents,), r),
    ensures
        contents is None ==> r is None,
        contents matches Some(t) ==> (text::trimmed(t@) == text::dec(n as nat) ==> r == Some(n)),
        contents matches Some(t) ==> (text::trimmed(t@).len() == 0 ==> r is None),
{
    text::printed_number_reads_back(n as nat);
    assert(text::unsigned_value(text::dec(n as nat), u32::MAX as nat) == Some(n as nat));
    if let Some(t) = contents {
        text::only_digits_are_numbers(text::trimmed(t@), u32::MAX as nat);
    }
}

/// What keeps a record from being written is told by its name.
pub proof fn missing_record_is_explained(e: CacheWriteError)
    ensures
        e is MissingLockfile ==> cache_text(e) == "barista.lock missing or unreadable"@,
        e is MissingPom ==> cache_text(e) == "pom.xml missing or unreadable"@,
        e is MissingDaemonPid ==> cache_text(e) == "daemon pid file missing or unreadable"@,
        e matches CacheWriteError::Io(d) ==> cache_text(e) == "io: "@ + d@,
        e matches CacheWriteError::Serialize(d) ==> cache_text(e) == "serialize: "@ + d@,
{
}

/// A phase that is not known is named as it was asked for.
pub proof fn unknown_phase_is_named(expr: String)
    ensures
        graph_text(ShotGraphError::UnknownPhase { expr }) == "unknown lifecycle phase `"@ + expr@
            + "`"@,
        ({
            let t = unknown_phase_text(expr@);
            let end = expr@ + "`."@;
            end.len() <= t.len() && t.skip(t.len() - end.len()) == end
        }),
{
    let t = unknown_phase_text(expr@);
    let end = expr@ + "`."@;
    assert(t.skip(t.len() - end.len()) =~= end);
}

/// A shot is refused before it starts only for a phase that is not known or for workers that
/// cannot be read.
pub proof fn shot_is_refused_for_its_phase_or_its_workers(
    expr: Seq<char>,
    env: LifecycleEnv,
    e: ShotError,
    m: MavenPhase,
)
    requires
        is_unprepared(expr, env, e),
    ensures
        e is Graph || e is Workers,
        e matches ShotError::Graph(ShotGraphError::UnknownPhase { expr: x }) ==> x@ == expr,
        e is Graph ==> maven_vocab::phase_name(m) != expr,
        e matches ShotError::Workers { detail } ==> (verify::workers_asked(env) matches Err(m)
            && detail@ == workers::malformed_text(verify::workers_expr(env), m)),
{
}

} // verus!
