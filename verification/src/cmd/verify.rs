//! The lifecycle commands on the daemon: what is prepared, what is sent, and what is
//! reported.

use vstd::prelude::*;
use vstd::string::*;

use crate::action_graph;
use crate::action_graph::{ActionGraph, ActionRequest, Credential};
use crate::cli::{PourArgs, ScopeArg};
use crate::cmd::ci_repro;
use crate::cmd::ci_repro::ReproducibilitySeed;
use crate::cmd::maven_vocab;
use crate::cmd::maven_vocab::MavenPhase;
use crate::cmd::reactor;
use crate::cmd::reactor::{Reactor, ReactorError};
use crate::cmd::schedule;
use crate::cmd::schedule::{Progress, Schedule, Step};
use crate::daemon::launcher;
use crate::daemon::launcher::{LaunchPlan, LauncherError};
use crate::daemon::respawn;
use crate::daemon::respawn::{RespawnError, RespawnOutcome};
use crate::daemon::workers;
use crate::facts::Binding;
use crate::output::report::{MojoInvocation, VerifyReport};
use crate::paths;
use crate::project;
use crate::project::{ProjectRoot, ResolveError};
use crate::text;

verus! {

/// The worker count that is used where nothing else is asked for.
pub const DEFAULT_WORKERS_EXPR: &'static str = "1C";

/// The daemon's directory below the home directory.
pub const DEFAULT_RUN_DIR_LEAF: &'static str = ".barista/run";

/// The prefix of the error codes that speak of deploy credentials.
pub const DEPLOY_AUTH_PREFIX: &'static str = "BAR-DEPLOY-AUTH-";

/// Why a lifecycle command failed.
#[derive(Debug)]
pub enum VerifyError {
    /// The project was not found.
    Project(ResolveError),
    /// The configuration could not be loaded.
    Config(String),
    /// The worker count is malformed.
    Workers { detail: String },
    /// The daemon could not be reached or started.
    Launcher(LauncherError),
    /// The artifacts could not be materialized.
    Pour { detail: String },
    /// Connecting to the daemon failed.
    DaemonConnect { phase: String, socket: String, detail: String },
    /// The channel to the daemon failed.
    Ipc { phase: String, detail: String },
    /// The daemon reported an error.
    DaemonError { phase: String, code: String, message: String },
    /// A credential is encrypted.
    DeployAuthEncrypted { server_id: String },
    /// The daemon crashed and no attempt is left.
    PersistentCrash { phase: String },
    /// The daemon went away before an action ended.
    PrematureClose { phase: String },
    /// The reactor could not be built.
    Reactor(ReactorError),
}

// ---------------------------------------------------------------------------
// Errors
// ---------------------------------------------------------------------------

/// Whether an error code speaks of deploy credentials.
pub open spec fn is_deploy_auth(code: Seq<char>) -> bool {
    DEPLOY_AUTH_PREFIX@.is_prefix_of(code)
}

/// The exit code of an error: 2 where the user can fix the setup, 3 where deploy
/// credentials are at fault, 1 otherwise.
pub open spec fn error_exit_code(e: VerifyError) -> i32 {
    match e {
        VerifyError::Project(_) => 2,
        VerifyError::Config(_) => 2,
        VerifyError::Workers { .. } => 2,
        VerifyError::Pour { .. } => 2,
        VerifyError::Reactor(_) => 2,
        VerifyError::DeployAuthEncrypted { .. } => 3,
        VerifyError::DaemonError { code, .. } => if is_deploy_auth(code@) {
            3
        } else {
            1
        },
        _ => 1,
    }
}

/// The text of an error.
pub open spec fn verify_text(e: VerifyError) -> Seq<char> {
    match e {
        VerifyError::Project(p) => "project setup: "@ + project::fault_text(p@),
        VerifyError::Config(d) => "config load: "@ + d@,
        VerifyError::Workers { detail } => "workers config: "@ + detail@,
        VerifyError::Launcher(le) => launcher::launcher_text(le),
        VerifyError::Pour { detail } => "pour step (required before verify): "@ + detail@
            + "\n  hint: run `barista pull` first to resolve dependencies, then re-run `barista verify`"@,
        VerifyError::DaemonConnect { phase, socket, detail } => "phase "@ + phase@
            + ": connect to daemon at "@ + text::quoted_path_text(socket@) + ": "@ + detail@,
        VerifyError::Ipc { phase, detail } => "phase "@ + phase@ + ": ipc: "@ + detail@,
        VerifyError::DaemonError { phase, code, message } => "phase "@ + phase@
            + ": daemon error: "@ + code@ + ": "@ + message@,
        VerifyError::DeployAuthEncrypted { server_id } => "deploy: server '"@ + server_id@
            + "' has a master-password-encrypted credential in settings.xml; \n  code: BAR-DEPLOY-AUTH-ENCRYPTED\n  hint: master-password decryption is a documented follow-up; use a plaintext credential or configure auth via environment variables until barista grows the decryption pipeline"@,
        VerifyError::PersistentCrash { phase } => "phase "@ + phase@
            + ": persistent daemon crash — barback crashed mid-action twice in a row ("@
            + respawn::DAEMON_CRASHED_CODE@
            + "). The daemon may be in a persistent failure mode; inspect daemon logs via `BARISTA_BARBACK_VERBOSE=1 barista verify`."@,
        VerifyError::PrematureClose { phase } => "phase "@ + phase@
            + ": daemon disconnected before action terminated"@,
        VerifyError::Reactor(r) => "reactor: "@ + reactor::fault_text(r@),
    }
}

/// Three texts as one.
fn joined3(a: &str, b: &str, c: &str) -> (r: String)
    ensures
        r@ == a@ + b@ + c@,
{
    let mut out = a.to_owned();
    out.append(b);
    out.append(c);
    out
}

impl VerifyError {
    /// The exit code of the process.
    pub fn exit_code(&self) -> (r: i32)
        ensures
            r == error_exit_code(*self),
    {
        match self {
            VerifyError::Project(_) => 2,
            VerifyError::Config(_) => 2,
            VerifyError::Workers { .. } => 2,
            VerifyError::Pour { .. } => 2,
            VerifyError::Reactor(_) => 2,
            VerifyError::DeployAuthEncrypted { .. } => 3,
            VerifyError::DaemonError { code, .. } => if text::starts_with(
                code.as_str(),
                DEPLOY_AUTH_PREFIX,
            ) {
                3
            } else {
                1
            },
            _ => 1,
        }
    }

    /// The error as the user sees it.
    pub fn to_message(&self) -> (r: String)
        ensures
            r@ == verify_text(*self),
    {
        match self {
            VerifyError::Project(p) => {
                let mut out = "project setup: ".to_owned();
                out.append(p.to_message().as_str());
                out
            },
            VerifyError::Config(d) => {
                let mut out = "config load: ".to_owned();
                out.append(d.as_str());
                out
            },
            VerifyError::Workers { detail } => {
                let mut out = "workers config: ".to_owned();
                out.append(detail.as_str());
                out
            },
            VerifyError::Launcher(le) => le.to_message(),
            VerifyError::Pour { detail } => joined3(
                "pour step (required before verify): ",
                detail.as_str(),
                "\n  hint: run `barista pull` first to resolve dependencies, then re-run `barista verify`",
            ),
            VerifyError::DaemonConnect { phase, socket, detail } => {
                let mut out = joined3("phase ", phase.as_str(), ": connect to daemon at ");
                out.append(text::quoted_path(socket.as_str()).as_str());
                out.append(": ");
                out.append(detail.as_str());
                out
            },
            VerifyError::Ipc { phase, detail } => {
                let mut out = joined3("phase ", phase.as_str(), ": ipc: ");
                out.append(detail.as_str());
                out
            },
            VerifyError::DaemonError { phase, code, message } => {
                let mut out = joined3("phase ", phase.as_str(), ": daemon error: ");
                out.append(code.as_str());
                out.append(": ");
                out.append(message.as_str());
                out
            },
            VerifyError::DeployAuthEncrypted { server_id } => joined3(
                "deploy: server '",
                server_id.as_str(),
                "' has a master-password-encrypted credential in settings.xml; \n  code: BAR-DEPLOY-AUTH-ENCRYPTED\n  hint: master-password decryption is a documented follow-up; use a plaintext credential or configure auth via environment variables until barista grows the decryption pipeline",
            ),
            VerifyError::PersistentCrash { phase } => {
                let mut out = joined3(
                    "phase ",
                    phase.as_str(),
                    ": persistent daemon crash — barback crashed mid-action twice in a row (",
                );
                out.append(respawn::DAEMON_CRASHED_CODE);
                out.append(
                    "). The daemon may be in a persistent failure mode; inspect daemon logs via `BARISTA_BARBACK_VERBOSE=1 barista verify`.",
                );
                out
            },
            VerifyError::PrematureClose { phase } => joined3(
                "phase ",
                phase.as_str(),
                ": daemon disconnected before action terminated",
            ),
            VerifyError::Reactor(r) => {
                let mut out = "reactor: ".to_owned();
                out.append(r.to_message().as_str());
                out
            },
        }
    }
}

/// Whether `v` is the error of a command whose action for `phase` failed with `e`.
pub open spec fn is_classified(phase: Seq<char>, e: RespawnError, v: VerifyError) -> bool {
    match e {
        RespawnError::Launcher(le) => v == VerifyError::Launcher(le),
        RespawnError::PersistentCrash => v matches VerifyError::PersistentCrash { phase: p } && p@
            == phase,
        RespawnError::Connect { socket, source } => v matches VerifyError::DaemonConnect {
            phase: p,
            socket: s,
            detail,
        } && p@ == phase && s == socket && detail == source,
        RespawnError::Ipc { detail } => v matches VerifyError::Ipc { phase: p, detail: d } && p@
            == phase && d == detail,
        RespawnError::DaemonProtocolError { code, message } => v matches VerifyError::DaemonError {
            phase: p,
            code: c,
            message: m,
        } && p@ == phase && c == code && m == message,
        RespawnError::PrematureClose => v matches VerifyError::PrematureClose { phase: p } && p@
            == phase,
    }
}

/// The error of a command whose action for `phase` failed with `e`.
pub fn classify_respawn_error(phase: &str, e: RespawnError) -> (r: VerifyError)
    ensures
        is_classified(phase@, e, r),
{
    match e {
        RespawnError::Launcher(le) => VerifyError::Launcher(le),
        RespawnError::PersistentCrash => VerifyError::PersistentCrash { phase: phase.to_owned() },
        RespawnError::Connect { socket, source } => VerifyError::DaemonConnect {
            phase: phase.to_owned(),
            socket,
            detail: source,
        },
        RespawnError::Ipc { detail } => VerifyError::Ipc { phase: phase.to_owned(), detail },
        RespawnError::DaemonProtocolError { code, message } => VerifyError::DaemonError {
            phase: phase.to_owned(),
            code,
            message,
        },
        RespawnError::PrematureClose => VerifyError::PrematureClose { phase: phase.to_owned() },
    }
}

/// The name of an action's status.
pub open spec fn status_text(status: int) -> Seq<char> {
    if status == 1 {
        "success"@
    } else if status == 2 {
        "failure"@
    } else if status == 3 {
        "timeout"@
    } else if status == 4 {
        "crashed"@
    } else if status == 5 {
        "cancelled"@
    } else {
        "unknown"@
    }
}

/// The name of an action's status; a number without a name is `unknown`.
pub fn action_status_str(status: i32) -> (r: &'static str)
    ensures
        r@ == status_text(status as int),
{
    match status {
        1 => "success",
        2 => "failure",
        3 => "timeout",
        4 => "crashed",
        5 => "cancelled",
        _ => "unknown",
    }
}

// ---------------------------------------------------------------------------
// Deploy credentials
// ---------------------------------------------------------------------------

/// A `<server>` of the Maven settings.
#[derive(Debug)]
pub struct Server {
    pub id: String,
    pub username: Option<String>,
    pub password: Option<String>,
}

/// Whether a password is encrypted: wrapped in braces.
pub open spec fn is_encrypted(pw: Seq<char>) -> bool {
    pw.len() >= 2 && pw[0] == '{' && pw.last() == '}'
}

/// The credential of a server.
pub open spec fn credential_of(s: Server) -> action_graph::CredentialModel {
    action_graph::CredentialModel {
        server_id: s.id@,
        username: match s.username {
            Some(u) => u@,
            None => Seq::empty(),
        },
        password: text::opt_text(s.password),
    }
}

/// Whether a server cannot be used: it has an identity and an encrypted password.
pub open spec fn is_refused(s: Server) -> bool {
    s.id@.len() > 0 && (s.password matches Some(pw) && is_encrypted(pw@))
}

/// The credentials of the servers that have an identity, in their order, or the identity
/// of the first one that cannot be used.
pub open spec fn credentials_for(servers: Seq<Server>) -> Result<
    Seq<action_graph::CredentialModel>,
    Seq<char>,
>
    decreases servers.len(),
{
    if servers.len() == 0 {
        Ok(Seq::empty())
    } else {
        match credentials_for(servers.drop_last()) {
            Err(id) => Err(id),
            Ok(cs) => if is_refused(servers.last()) {
                Err(servers.last().id@)
            } else if servers.last().id@.len() == 0 {
                Ok(cs)
            } else {
                Ok(cs.push(credential_of(servers.last())))
            },
        }
    }
}

fn encrypted(pw: &str) -> (r: bool)
    ensures
        r == is_encrypted(pw@),
{
    let n: usize = pw.unicode_len();
    n >= 2 && pw.get_char(0) == '{' && pw.get_char(n - 1) == '}'
}

proof fn refusal_stays(servers: Seq<Server>, i: int, id: Seq<char>)
    requires
        0 <= i <= servers.len(),
        credentials_for(servers.take(i)) == Err::<Seq<action_graph::CredentialModel>, Seq<char>>(
            id,
        ),
    ensures
        credentials_for(servers) == Err::<Seq<action_graph::CredentialModel>, Seq<char>>(id),
    decreases servers.len() - i,
{
    if i < servers.len() {
        assert(servers.take(i + 1).drop_last() =~= servers.take(i));
        refusal_stays(servers, i + 1, id);
    } else {
        assert(servers.take(i) =~= servers);
    }
}

/// The credentials that a deploy sends to the daemon. Encrypted passwords are refused:
/// ciphertext is never sent.
pub fn build_deploy_credentials(servers: &Vec<Server>) -> (r: Result<Vec<Credential>, VerifyError>)
    ensures
        match (r, credentials_for(servers@)) {
            (Ok(cs), Ok(m)) => action_graph::credentials_of(cs@) == m,
            (Err(VerifyError::DeployAuthEncrypted { server_id }), Err(id)) => server_id@ == id,
            _ => false,
        },
{
    let mut out: Vec<Credential> = Vec::new();
    let mut i: usize = 0;
    assert(servers@.take(0) =~= Seq::empty());
    assert(action_graph::credentials_of(out@) =~= Seq::empty());
    while i < servers.len()
        invariant
            i <= servers@.len(),
            credentials_for(servers@.take(i as int)) == Ok::<
                Seq<action_graph::CredentialModel>,
                Seq<char>,
            >(action_graph::credentials_of(out@)),
        decreases servers@.len() - i,
    {
        let s = &servers[i];
        proof {
            assert(servers@.take(i + 1).drop_last() =~= servers@.take(i as int));
            assert(servers@.take(i + 1).last() == servers@[i as int]);
        }
        if !s.id.as_str().is_empty() {
            if let Some(pw) = &s.password {
                if encrypted(pw.as_str()) {
                    proof {
                        refusal_stays(servers@, i + 1, s.id@);
                    }
                    return Err(VerifyError::DeployAuthEncrypted { server_id: s.id.clone() });
                }
            }
            let username = match &s.username {
                Some(u) => u.clone(),
                None => String::new(),
            };
            let c = Credential {
                server_id: s.id.clone(),
                username,
                password: text::clone_opt(&s.password),
            };
            let ghost before = action_graph::credentials_of(out@);
            out.push(c);
            assert(action_graph::credentials_of(out@) =~= before.push(c@));
        }
        i = i + 1;
    }
    assert(servers@.take(servers@.len() as int) =~= servers@);
    Ok(out)
}

/// No credential that is sent is encrypted.
pub proof fn no_ciphertext_is_sent(servers: Seq<Server>, k: int)
    requires
        credentials_for(servers) matches Ok(cs) && 0 <= k < cs.len(),
    ensures
        credentials_for(servers)->Ok_0[k].password matches Some(pw) ==> !is_encrypted(pw),
    decreases servers.len(),
{
    if servers.len() > 0 {
        let cs = credentials_for(servers.drop_last())->Ok_0;
        if k < cs.len() {
            no_ciphertext_is_sent(servers.drop_last(), k);
        }
    }
}

// ---------------------------------------------------------------------------
// Daemon configuration
// ---------------------------------------------------------------------------

/// The worker count: what the variable `BARISTA_DAEMON_WORKERS` asks for, else one per
/// core.
pub fn resolve_workers_from_config(expr: Option<&str>, cores: usize) -> (r: Result<
    usize,
    VerifyError,
>)
    requires
        cores >= 1,
    ensures
        ({
            let e = match expr {
                Some(s) => s@,
                None => DEFAULT_WORKERS_EXPR@,
            };
            match (r, workers::workers(text::trimmed(e), cores as nat)) {
                (Ok(n), Ok(m)) => n == m,
                (Err(VerifyError::Workers { detail }), Err(m)) => detail@
                    == workers::malformed_text(e, m),
                _ => false,
            }
        }),
{
    let e = match expr {
        Some(s) => s,
        None => DEFAULT_WORKERS_EXPR,
    };
    match workers::resolve_workers(e, cores) {
        Ok(n) => Ok(n),
        Err(err) => Err(VerifyError::Workers { detail: err.to_message() }),
    }
}

/// The socket directory with a leading `~` taken from the home directory.
pub open spec fn socket_dir_of(raw: Seq<char>, home: Option<Seq<char>>) -> Seq<char> {
    match home {
        None => raw,
        Some(h) => if "~/"@.is_prefix_of(raw) {
            paths::joined_path(h, raw.skip(2))
        } else if raw == "~"@ {
            paths::joined_path(h, DEFAULT_RUN_DIR_LEAF@)
        } else {
            raw
        },
    }
}

/// The socket directory with a leading `~` taken from the home directory.
pub fn resolve_socket_dir(raw: &str, home: Option<&str>) -> (r: String)
    ensures
        r@ == socket_dir_of(
            raw@,
            match home {
                Some(s) => Some(s@),
                None => None,
            },
        ),
{
    proof {
        reveal_strlit("~/");
    }
    if let Some(h) = home {
        if let Some(rest) = text::strip_prefix(raw, "~/") {
            return paths::join(h, rest.as_str());
        }
        if text::same_text(raw, "~") {
            return paths::join(h, DEFAULT_RUN_DIR_LEAF);
        }
    }
    raw.to_owned()
}

// ---------------------------------------------------------------------------
// One module
// ---------------------------------------------------------------------------

/// A run of one module's actions, one after the other.
#[derive(Debug)]
pub struct ModuleRun {
    /// The actions.
    pub graph: ActionGraph,
    /// The project root that is sent with every request.
    pub project_root: String,
    /// The user's own arguments, which are sent with every request.
    pub arguments: Vec<String>,
    /// What the actions so far came to, in their order.
    pub invocations: Vec<MojoInvocation>,
    /// How many of them failed.
    pub failed_actions: usize,
    /// How often the daemon was started anew.
    pub respawns: u32,
}

/// What the actions of a module came to.
#[derive(Debug)]
pub struct ModuleOutcome {
    pub invocations: Vec<MojoInvocation>,
    pub executed: usize,
    pub failed_actions: usize,
    pub respawns: u32,
}

/// Whether `i` records what the action for `phase` on `module` came to.
pub open spec fn is_invocation(
    i: MojoInvocation,
    phase: Seq<char>,
    module: Seq<char>,
    outcome: RespawnOutcome,
    duration_ms: u64,
) -> bool {
    &&& i.phase@ == phase
    &&& i.mojo == outcome.result.action_id
    &&& i.module@ == module
    &&& i.exit_code == outcome.result.exit_code
    &&& i.status@ == status_text(outcome.result.status as int)
    &&& i.failure_message == outcome.result.failure_message
    &&& i.error_code@ == (match outcome.result.error_code {
        Some(c) => c@,
        None => Seq::empty(),
    })
    &&& i.duration_ms == duration_ms
}

/// `a + b`, at most the largest `u32`.
pub open spec fn saturated(a: nat, b: nat) -> nat {
    if a + b > u32::MAX {
        u32::MAX as nat
    } else {
        a + b
    }
}

impl ModuleRun {
    /// The records belong to the first actions in their order, only the last one may be a
    /// failure, and it is counted.
    pub open spec fn valid(&self) -> bool {
        let n = self.invocations@.len() as int;
        &&& n <= self.graph.actions@.len()
        &&& forall|k: int|
            0 <= k < n ==> (#[trigger] self.invocations@[k]).phase@ == self.graph.actions@[k].phase@
                && self.invocations@[k].module@ == self.graph.module_root@
        &&& forall|k: int| 0 <= k < n - 1 ==> (#[trigger] self.invocations@[k]).exit_code == 0
        &&& self.failed_actions == (if n > 0 && self.invocations@[n - 1].exit_code != 0 {
            1int
        } else {
            0int
        })
    }

    /// Whether nothing is left to do: every action ran, or one failed.
    pub open spec fn is_over(&self) -> bool {
        self.failed_actions > 0 || self.invocations@.len() == self.graph.actions@.len()
    }

    /// Whether `r` is the request for the next action.
    pub open spec fn is_next_request(
        &self,
        credentials: Option<&Vec<Credential>>,
        seed: Option<&ReproducibilitySeed>,
        r: action_graph::RequestModel,
    ) -> bool {
        let phase = self.graph.actions@[self.invocations@.len() as int].phase@;
        let base = action_graph::RequestModel {
            credentials: if phase == "deploy"@ {
                match credentials {
                    Some(cs) => Some(action_graph::credentials_of(cs@)),
                    None => None,
                }
            } else {
                None
            },
            arguments: text::texts(self.arguments@),
            ..action_graph::request_model(self.graph@, phase, self.project_root@)
        };
        match seed {
            None => r == base,
            Some(s) => ci_repro::is_seeded(base, r, *s),
        }
    }

    /// A run that has not begun.
    pub fn new(graph: &ActionGraph, project_root: &str, arguments: &Vec<String>) -> (r: ModuleRun)
        ensures
            r.valid(),
            text::texts(r.arguments@) == text::texts(arguments@),
            r.graph@ == graph@,
            r.graph.actions@.len() == graph.actions@.len(),
            r.project_root@ == project_root@,
            r.invocations@.len() == 0,
            r.failed_actions == 0,
            r.respawns == 0,
    {
        ModuleRun {
            graph: action_graph::clone_graph(graph),
            project_root: project_root.to_owned(),
            arguments: text::clone_texts(arguments),
            invocations: Vec::new(),
            failed_actions: 0,
            respawns: 0,
        }
    }

    /// A run of one module of several that has not begun. Its requests name the module's own
    /// directory as the project's, so that the daemon stays within the module.
    pub fn of_module(module: &reactor::ModuleNode, arguments: &Vec<String>) -> (r: ModuleRun)
        ensures
            r.valid(),
            text::texts(r.arguments@) == text::texts(arguments@),
            r.graph@ == module.action_graph@,
            r.graph.actions@.len() == module.action_graph.actions@.len(),
            r.project_root@ == module.root@,
            r.invocations@.len() == 0,
            r.failed_actions == 0,
            r.respawns == 0,
    {
        ModuleRun::new(&module.action_graph, module.root.as_str(), arguments)
    }

    /// The request for the next action, unless nothing is left to do. Credentials go with
    /// `deploy` alone; the user's arguments and the seed go with every action.
    pub fn next_request(
        &self,
        credentials: Option<&Vec<Credential>>,
        seed: Option<&ReproducibilitySeed>,
    ) -> (r: Option<ActionRequest>)
        requires
            self.valid(),
        ensures
            match r {
                None => self.is_over(),
                Some(req) => !self.is_over() && self.is_next_request(credentials, seed, req@),
            },
    {
        if self.failed_actions > 0 || self.invocations.len() == self.graph.actions.len() {
            return None;
        }
        let action = &self.graph.actions[self.invocations.len()];
        let mut request = action_graph::build_action_request(
            &self.graph,
            action,
            self.project_root.as_str(),
        );
        request.arguments = text::clone_texts(&self.arguments);
        if text::same_text(action.phase, "deploy") {
            if let Some(cs) = credentials {
                request.credentials = Some(action_graph::clone_credentials(cs));
            }
        }
        if let Some(s) = seed {
            ci_repro::apply_to_request(&mut request, s);
        }
        Some(request)
    }

    /// Whether the next action may be run again after a crash.
    pub fn next_is_retryable(&self) -> (r: bool)
        requires
            self.valid(),
            !self.is_over(),
        ensures
            r == self.graph.actions@[self.invocations@.len() as int].retryable,
    {
        self.graph.actions[self.invocations.len()].retryable
    }

    /// Records what the next action came to.
    pub fn record(&mut self, outcome: RespawnOutcome, duration_ms: u64)
        requires
            old(self).valid(),
            !old(self).is_over(),
        ensures
            final(self).valid(),
            final(self).graph == old(self).graph,
            final(self).project_root == old(self).project_root,
            final(self).arguments == old(self).arguments,
            final(self).invocations@.len() == old(self).invocations@.len() + 1,
            forall|k: int|
                0 <= k < old(self).invocations@.len() ==> final(self).invocations@[k] == old(
                    self,
                ).invocations@[k],
            is_invocation(
                final(self).invocations@.last(),
                old(self).graph.actions@[old(self).invocations@.len() as int].phase@,
                old(self).graph.module_root@,
                outcome,
                duration_ms,
            ),
            final(self).failed_actions == (if outcome.result.exit_code != 0 {
                1int
            } else {
                0int
            }),
            final(self).respawns == saturated(old(self).respawns as nat, outcome.respawns as nat),
    {
        let phase = self.graph.actions[self.invocations.len()].phase.to_owned();
        let module = self.graph.module_root.clone();
        self.respawns = self.respawns.saturating_add(outcome.respawns);
        let result = outcome.result;
        if result.exit_code != 0 {
            self.failed_actions = self.failed_actions + 1;
        }
        let error_code = match result.error_code {
            Some(c) => c,
            None => String::new(),
        };
        self.invocations.push(
            MojoInvocation {
                phase,
                mojo: result.action_id,
                module,
                exit_code: result.exit_code,
                status: action_status_str(result.status).to_owned(),
                failure_message: result.failure_message,
                error_code,
                duration_ms,
            },
        );
    }

    /// What the run came to.
    pub fn finish(self) -> (r: ModuleOutcome)
        ensures
            r.invocations == self.invocations,
            r.executed == self.invocations@.len(),
            r.failed_actions == self.failed_actions,
            r.respawns == self.respawns,
    {
        let executed: usize = self.invocations.len();
        ModuleOutcome {
            invocations: self.invocations,
            executed,
            failed_actions: self.failed_actions,
            respawns: self.respawns,
        }
    }
}

/// Nothing is sent after a failure.
pub proof fn failure_ends_a_module(run: ModuleRun)
    requires
        run.valid(),
        run.invocations@.len() > 0,
        run.invocations@.last().exit_code != 0,
    ensures
        run.is_over(),
        run.failed_actions == 1,
{
}

/// Credentials never go with a phase other than `deploy`.
pub proof fn only_deploy_carries_credentials(
    run: ModuleRun,
    credentials: Option<&Vec<Credential>>,
    seed: Option<&ReproducibilitySeed>,
    r: action_graph::RequestModel,
)
    requires
        run.is_next_request(credentials, seed, r),
        r.credentials is Some,
    ensures
        r.mojo_coords == "deploy"@,
        credentials matches Some(cs) && r.credentials == Some(action_graph::credentials_of(cs@)),
{
}

// ---------------------------------------------------------------------------
// All modules
// ---------------------------------------------------------------------------

/// How the task of one module ended.
#[derive(Debug)]
pub enum ModuleEnd {
    /// What the module's actions came to, or why they could not be run.
    Ended(Result<ModuleOutcome, VerifyError>),
    /// The task was lost.
    Lost,
}

/// Whether the end of a module stops the levels after it.
pub open spec fn stops_reactor(e: ModuleEnd) -> bool {
    match e {
        ModuleEnd::Ended(Ok(o)) => o.failed_actions > 0,
        _ => true,
    }
}

/// A run of the modules of a reactor, level by level.
#[derive(Debug)]
pub struct ModulesRun {
    /// How far the run is.
    pub schedule: Schedule,
    /// What the modules came to, in the order of their indices.
    pub slots: Vec<Option<Result<ModuleOutcome, VerifyError>>>,
}

/// Whether a run is one of a reactor with these levels.
pub open spec fn modules_fit(levels: Seq<Vec<usize>>, run: ModulesRun) -> bool {
    schedule::is_sound(levels, run.schedule@) && reactor::names_modules(levels, run.slots@.len())
}

/// The slot whose task ended, and whether that stops the run.
pub open spec fn end_of(end: Option<(usize, ModuleEnd)>) -> Option<(usize, bool)> {
    match end {
        Some((slot, e)) => Some((slot, stops_reactor(e))),
        None => None,
    }
}

/// What the modules came to, after an end.
pub open spec fn slots_after(
    levels: Seq<Vec<usize>>,
    run: ModulesRun,
    end: Option<(usize, ModuleEnd)>,
) -> Seq<Option<Result<ModuleOutcome, VerifyError>>> {
    match end {
        Some((slot, ModuleEnd::Ended(r))) => if run.schedule@.running.contains(slot) {
            run.slots@.update(levels[run.schedule@.level]@[slot as int] as int, Some(r))
        } else {
            run.slots@
        },
        _ => run.slots@,
    }
}

/// Whether the run `a`, told of an end or of none, does `step` and is then `b`.
pub open spec fn modules_ran(
    levels: Seq<Vec<usize>>,
    at_most: nat,
    a: ModulesRun,
    end: Option<(usize, ModuleEnd)>,
    b: ModulesRun,
    step: Step,
) -> bool {
    &&& (b.schedule@, step) == schedule::stepped(
        levels,
        at_most,
        schedule::told(a.schedule@, end_of(end)),
    )
    &&& b.slots@ == slots_after(levels, a, end)
}

impl ModulesRun {
    /// A run that has done nothing yet.
    pub fn new(reactor: &Reactor) -> (r: ModulesRun)
        ensures
            r.schedule@ == schedule::fresh(),
            r.slots@.len() == reactor.modules@.len(),
            forall|i: int| 0 <= i < r.slots@.len() ==> (#[trigger] r.slots@[i]) is None,
            reactor::names_modules(reactor.topo_levels@, reactor.modules@.len()) ==> modules_fit(
                reactor.topo_levels@,
                r,
            ),
    {
        let mut slots: Vec<Option<Result<ModuleOutcome, VerifyError>>> = Vec::new();
        while slots.len() < reactor.modules.len()
            invariant
                slots@.len() <= reactor.modules@.len(),
                forall|i: int| 0 <= i < slots@.len() ==> (#[trigger] slots@[i]) is None,
            decreases reactor.modules@.len() - slots@.len(),
        {
            slots.push(None);
        }
        ModulesRun { schedule: Schedule::new(), slots }
    }

    /// Moves the run on: takes the end of the task of a slot, where one ended, and says what to
    /// do next. A module that failed stops the levels after its own.
    pub fn step(
        &mut self,
        reactor: &Reactor,
        workers_budget: usize,
        end: Option<(usize, ModuleEnd)>,
    ) -> (r: Step)
        requires
            modules_fit(reactor.topo_levels@, *old(self)),
        ensures
            modules_ran(
                reactor.topo_levels@,
                schedule::permits(workers_budget),
                *old(self),
                end,
                *final(self),
                r,
            ),
            modules_fit(reactor.topo_levels@, *final(self)),
    {
        proof {
            schedule::step_is_sound(
                reactor.topo_levels@,
                schedule::permits(workers_budget),
                self.schedule@,
                end_of(end),
            );
        }
        match end {
            None => {},
            Some((slot, e)) => {
                if self.schedule.runs(slot) {
                    match e {
                        ModuleEnd::Ended(r) => {
                            let failed = match &r {
                                Ok(o) => o.failed_actions > 0,
                                Err(_) => true,
                            };
                            let module: usize = reactor.topo_levels[self.schedule.level][slot];
                            self.schedule.hear(slot, failed);
                            self.slots.set(module, Some(r));
                        },
                        ModuleEnd::Lost => {
                            self.schedule.hear(slot, true);
                        },
                    }
                }
            },
        }
        self.schedule.step(&reactor.topo_levels, workers_budget)
    }

    /// Whether the sums over the modules that ran can be counted.
    pub fn can_finish(&self) -> (r: bool)
        ensures
            r == totals_fit(self.slots@),
    {
        can_add_up(&self.slots)
    }

    /// What the run came to: the sums over the modules that ran.
    pub fn finish(self) -> (r: Result<ModuleOutcome, VerifyError>)
        requires
            totals_fit(self.slots@),
        ensures
            match r {
                Ok(o) => totals(self.slots@) == Ok::<Totals, VerifyError>(outcome_totals(o)),
                Err(e) => totals(self.slots@) == Err::<Totals, VerifyError>(e),
            },
    {
        aggregate(self.slots)
    }
}

/// The error of a module whose task panicked.
pub fn panicked_module(module_root: &str, detail: &str) -> (r: VerifyError)
    ensures
        r matches VerifyError::Ipc { phase, detail: d } && phase@ == "reactor"@ && d@
            == "module task panicked at "@ + text::quoted_path_text(module_root@) + ": "@
            + detail@,
{
    VerifyError::Ipc {
        phase: "reactor".to_owned(),
        detail: text::four(
            "module task panicked at ",
            text::quoted_path(module_root).as_str(),
            ": ",
            detail,
        ),
    }
}

/// The error of a runtime that could not be built.
pub fn runtime_error(detail: &str) -> (r: VerifyError)
    ensures
        r matches VerifyError::Workers { detail: d } && d@ == "tokio multi-thread runtime build: "@
            + detail@,
{
    VerifyError::Workers { detail: text::two("tokio multi-thread runtime build: ", detail) }
}

/// The sum of what modules came to.
pub struct Totals {
    pub invocations: Seq<MojoInvocation>,
    pub executed: nat,
    pub failed_actions: nat,
    pub respawns: nat,
}

/// What all modules came to, in the order of the modules: the first one that could not be
/// run decides, else the sums. A module that did not run adds nothing.
pub open spec fn totals(slots: Seq<Option<Result<ModuleOutcome, VerifyError>>>) -> Result<
    Totals,
    VerifyError,
>
    decreases slots.len(),
{
    if slots.len() == 0 {
        Ok(Totals { invocations: Seq::empty(), executed: 0, failed_actions: 0, respawns: 0 })
    } else {
        match totals(slots.drop_last()) {
            Err(e) => Err(e),
            Ok(t) => match slots.last() {
                None => Ok(t),
                Some(Err(e)) => Err(e),
                Some(Ok(o)) => Ok(
                    Totals {
                        invocations: t.invocations + o.invocations@,
                        executed: t.executed + o.executed as nat,
                        failed_actions: t.failed_actions + o.failed_actions as nat,
                        respawns: saturated(t.respawns, o.respawns as nat),
                    },
                ),
            },
        }
    }
}

/// Whether the sums fit, whatever part of the modules is taken.
pub open spec fn totals_fit(slots: Seq<Option<Result<ModuleOutcome, VerifyError>>>) -> bool {
    forall|i: int|
        0 <= i <= slots.len() ==> (#[trigger] totals(slots.take(i)) matches Ok(t)
            ==> t.executed <= usize::MAX && t.failed_actions <= usize::MAX)
}

/// The model of a [`ModuleOutcome`] as a sum.
pub open spec fn outcome_totals(o: ModuleOutcome) -> Totals {
    Totals {
        invocations: o.invocations@,
        executed: o.executed as nat,
        failed_actions: o.failed_actions as nat,
        respawns: o.respawns as nat,
    }
}

proof fn failed_totals_stay(slots: Seq<Option<Result<ModuleOutcome, VerifyError>>>, i: int, e: VerifyError)
    requires
        0 <= i <= slots.len(),
        totals(slots.take(i)) == Err::<Totals, VerifyError>(e),
    ensures
        totals(slots) == Err::<Totals, VerifyError>(e),
    decreases slots.len() - i,
{
    if i < slots.len() {
        assert(slots.take(i + 1).drop_last() =~= slots.take(i));
        failed_totals_stay(slots, i + 1, e);
    } else {
        assert(slots.take(i) =~= slots);
    }
}

/// After the first module that could not be run nothing is added.
proof fn failed_totals_fit(slots: Seq<Option<Result<ModuleOutcome, VerifyError>>>, i: int)
    requires
        0 <= i <= slots.len(),
        totals(slots.take(i)) is Err,
        forall|j: int|
            0 <= j < i ==> (#[trigger] totals(slots.take(j)) matches Ok(t) ==> t.executed
                <= usize::MAX && t.failed_actions <= usize::MAX),
    ensures
        totals_fit(slots),
{
    assert forall|j: int| 0 <= j <= slots.len() implies (#[trigger] totals(slots.take(j)) matches Ok(
        t,
    ) ==> t.executed <= usize::MAX && t.failed_actions <= usize::MAX) by {
        if j >= i {
            assert(slots.take(j).take(i) =~= slots.take(i));
            failed_totals_stay(slots.take(j), i, totals(slots.take(i))->Err_0);
        }
    }
}

/// Whether the sums over the modules can be counted.
pub fn can_add_up(slots: &Vec<Option<Result<ModuleOutcome, VerifyError>>>) -> (r: bool)
    ensures
        r == totals_fit(slots@),
{
    let mut executed: usize = 0;
    let mut failed: usize = 0;
    let mut i: usize = 0;
    while i < slots.len()
        invariant
            i <= slots@.len(),
            forall|j: int|
                0 <= j <= i ==> (#[trigger] totals(slots@.take(j)) matches Ok(t) ==> t.executed
                    <= usize::MAX && t.failed_actions <= usize::MAX),
            totals(slots@.take(i as int)) matches Ok(t) && t.executed == executed
                && t.failed_actions == failed,
        decreases slots@.len() - i,
    {
        let ghost next = slots@.take(i + 1);
        proof {
            assert(next.drop_last() =~= slots@.take(i as int));
            assert(next.last() == slots@[i as int]);
        }
        match &slots[i] {
            None => {},
            Some(Err(_)) => {
                proof {
                    failed_totals_fit(slots@, i + 1);
                }
                return true;
            },
            Some(Ok(o)) => {
                assert(totals(next) matches Ok(t) && t.executed == executed + o.executed
                    && t.failed_actions == failed + o.failed_actions);
                match executed.checked_add(o.executed) {
                    Some(n) => executed = n,
                    None => return false,
                }
                match failed.checked_add(o.failed_actions) {
                    Some(n) => failed = n,
                    None => return false,
                }
            },
        }
        i = i + 1;
    }
    true
}

/// Sums up what the modules came to.
pub fn aggregate(slots: Vec<Option<Result<ModuleOutcome, VerifyError>>>) -> (r: Result<
    ModuleOutcome,
    VerifyError,
>)
    requires
        totals_fit(slots@),
    ensures
        match r {
            Ok(o) => totals(slots@) == Ok::<Totals, VerifyError>(outcome_totals(o)),
            Err(e) => totals(slots@) == Err::<Totals, VerifyError>(e),
        },
{
    let ghost all = slots@;
    let mut rest = slots;
    let mut sum = ModuleOutcome {
        invocations: Vec::new(),
        executed: 0,
        failed_actions: 0,
        respawns: 0,
    };
    let ghost mut i: int = 0;
    assert(all.skip(0) =~= all);
    assert(outcome_totals(sum).invocations =~= Seq::empty());
    while rest.len() > 0
        invariant
            0 <= i <= all.len(),
            all == slots@,
            rest@ == all.skip(i),
            totals_fit(all),
            totals(all.take(i)) == Ok::<Totals, VerifyError>(outcome_totals(sum)),
        decreases rest@.len(),
    {
        proof {
            assert(all.take(i + 1).drop_last() =~= all.take(i));
            assert(all.take(i + 1).last() == rest@[0]);
            assert(totals(all.take(i + 1)) is Ok ==> totals(all.take(i + 1))->Ok_0.executed
                <= usize::MAX);
        }
        let slot = rest.remove(0);
        assert(rest@ =~= all.skip(i + 1));
        match slot {
            None => {},
            Some(Err(e)) => {
                proof {
                    failed_totals_stay(all, i + 1, e);
                }
                return Err(e);
            },
            Some(Ok(o)) => {
                let ghost before = outcome_totals(sum);
                sum.executed = sum.executed + o.executed;
                sum.failed_actions = sum.failed_actions + o.failed_actions;
                sum.respawns = sum.respawns.saturating_add(o.respawns);
                let mut more = o.invocations;
                sum.invocations.append(&mut more);
                assert(outcome_totals(sum).invocations =~= before.invocations + o.invocations@);
            },
        }
        proof {
            i = i + 1;
        }
    }
    assert(all.take(i) =~= all);
    Ok(sum)
}

/// The number of actions that are planned for all modules.
pub open spec fn planned(ms: Seq<reactor::ModuleNode>) -> nat
    decreases ms.len(),
{
    if ms.len() == 0 {
        0
    } else {
        planned(ms.drop_last()) + ms.last().action_graph.actions@.len()
    }
}

proof fn planned_grows(ms: Seq<reactor::ModuleNode>, i: int)
    requires
        0 <= i <= ms.len(),
    ensures
        planned(ms.take(i)) <= planned(ms),
    decreases ms.len() - i,
{
    if i < ms.len() {
        assert(ms.take(i + 1).drop_last() =~= ms.take(i));
        planned_grows(ms, i + 1);
    } else {
        assert(ms.take(i) =~= ms);
    }
}

/// The number of actions that are planned for all modules.
pub fn count_planned(modules: &Vec<reactor::ModuleNode>) -> (r: usize)
    requires
        planned(modules@) <= usize::MAX,
    ensures
        r == planned(modules@),
{
    let mut sum: usize = 0;
    let mut i: usize = 0;
    assert(modules@.take(0) =~= Seq::empty());
    while i < modules.len()
        invariant
            i <= modules@.len(),
            planned(modules@) <= usize::MAX,
            sum == planned(modules@.take(i as int)),
        decreases modules@.len() - i,
    {
        proof {
            assert(modules@.take(i + 1).drop_last() =~= modules@.take(i as int));
            planned_grows(modules@, i + 1);
        }
        sum = sum + modules[i].action_graph.actions.len();
        i = i + 1;
    }
    assert(modules@.take(modules@.len() as int) =~= modules@);
    sum
}

// ---------------------------------------------------------------------------
// The exit code of a report
// ---------------------------------------------------------------------------

/// The exit code of a report: 0 where nothing failed, 3 where a failure speaks of deploy
/// credentials, 1 otherwise.
pub open spec fn report_exit_code(r: VerifyReport) -> i32 {
    if r.failed_actions == 0 {
        0
    } else if exists|k: int|
        0 <= k < r.invocations@.len() && is_deploy_auth((#[trigger] r.invocations@[k]).error_code@) {
        3
    } else {
        1
    }
}

/// The exit code of the process for a report.
pub fn exit_code_of(report: &VerifyReport) -> (r: i32)
    ensures
        r == report_exit_code(*report),
{
    if report.failed_actions == 0 {
        return 0;
    }
    let mut k: usize = 0;
    while k < report.invocations.len()
        invariant
            k <= report.invocations@.len(),
            report.failed_actions != 0,
            forall|j: int|
                0 <= j < k ==> !is_deploy_auth((#[trigger] report.invocations@[j]).error_code@),
        decreases report.invocations@.len() - k,
    {
        if text::starts_with(report.invocations[k].error_code.as_str(), DEPLOY_AUTH_PREFIX) {
            assert(is_deploy_auth(report.invocations@[k as int].error_code@));
            return 3;
        }
        k = k + 1;
    }
    1
}

// ---------------------------------------------------------------------------
// The command
// ---------------------------------------------------------------------------

/// What the configuration says of the daemon and the servers.
#[derive(Debug)]
pub struct LifecycleConfig {
    pub socket_dir: String,
    pub idle_shutdown_secs: u32,
    pub servers: Vec<Server>,
}

/// What the environment says.
#[derive(Debug)]
pub struct LifecycleEnv {
    /// `$BARISTA_DAEMON_WORKERS`.
    pub workers_expr: Option<String>,
    /// The number of cores.
    pub cores: usize,
    /// `$HOME`.
    pub home: Option<String>,
    /// All variables.
    pub vars: Vec<Binding>,
    /// The time of the project's last commit.
    pub git_head: Option<u64>,
}

/// What is settled before the daemon is started.
#[derive(Debug)]
pub struct Prepared {
    /// What `--ci` adds to every action.
    pub seed: Option<ReproducibilitySeed>,
    /// The credentials of a deploy.
    pub credentials: Option<Vec<Credential>>,
    /// The user's own arguments.
    pub arguments: Vec<String>,
    /// How the daemon is started.
    pub plan: LaunchPlan,
}

/// The worker count that the environment asks for, or what is wrong with it.
pub open spec fn workers_asked(env: LifecycleEnv) -> Result<nat, Seq<char>> {
    workers::workers(text::trimmed(workers_expr(env)), env.cores as nat)
}

/// The worker-count expression of the environment.
pub open spec fn workers_expr(env: LifecycleEnv) -> Seq<char> {
    match env.workers_expr {
        Some(s) => s@,
        None => DEFAULT_WORKERS_EXPR@,
    }
}

/// Whether `p` is what a command settles before the daemon is started.
pub open spec fn is_prepared(
    phase: MavenPhase,
    ci: bool,
    arguments: Seq<Seq<char>>,
    config: LifecycleConfig,
    env: LifecycleEnv,
    p: Prepared,
) -> bool {
    &&& match p.seed {
        Some(s) => ci && ci_repro::is_sent_seed(
            s,
            crate::facts::pairs(env.vars@),
            env.git_head,
        ),
        None => !ci,
    }
    &&& match p.credentials {
        Some(cs) => phase == MavenPhase::Deploy && credentials_for(config.servers@) == Ok::<
            Seq<action_graph::CredentialModel>,
            Seq<char>,
        >(action_graph::credentials_of(cs@)),
        None => phase != MavenPhase::Deploy,
    }
    &&& text::texts(p.arguments@) == arguments
    &&& workers_asked(env) == Ok::<nat, Seq<char>>(p.plan.workers as nat)
    &&& p.plan.socket_dir@ == socket_dir_of(config.socket_dir@, text::opt_text(env.home))
    &&& p.plan.socket_path@ == paths::joined_path(p.plan.socket_dir@, launcher::SOCKET_LEAF@)
    &&& p.plan.idle_shutdown_secs == config.idle_shutdown_secs
    &&& p.plan.crash_after is None
    &&& p.plan.spawn_timeout_ms == launcher::SPAWN_TIMEOUT_MS
}

/// Whether `e` is why nothing could be settled: an encrypted credential of a deploy, else a
/// malformed worker count.
pub open spec fn is_unprepared(
    phase: MavenPhase,
    config: LifecycleConfig,
    env: LifecycleEnv,
    e: VerifyError,
) -> bool {
    if phase == MavenPhase::Deploy && credentials_for(config.servers@) is Err {
        e matches VerifyError::DeployAuthEncrypted { server_id } && server_id@ == credentials_for(
            config.servers@,
        )->Err_0
    } else {
        workers_asked(env) matches Err(m) && (e matches VerifyError::Workers { detail } && detail@
            == workers::malformed_text(workers_expr(env), m))
    }
}

/// Settles what is needed before the daemon is started.
pub fn prepare(
    phase: MavenPhase,
    ci: bool,
    arguments: &Vec<String>,
    config: &LifecycleConfig,
    env: &LifecycleEnv,
) -> (r: Result<Prepared, VerifyError>)
    requires
        env.cores >= 1,
    ensures
        match r {
            Ok(p) => is_prepared(phase, ci, text::texts(arguments@), *config, *env, p),
            Err(e) => is_unprepared(phase, *config, *env, e),
        },
{
    let seed = if ci {
        Some(ci_repro::sent_seed(&env.vars, env.git_head))
    } else {
        None
    };
    let credentials = if phase == MavenPhase::Deploy {
        match build_deploy_credentials(&config.servers) {
            Ok(cs) => Some(cs),
            Err(e) => return Err(e),
        }
    } else {
        None
    };
    let expr = match &env.workers_expr {
        Some(s) => Some(s.as_str()),
        None => None,
    };
    let count: usize = match resolve_workers_from_config(expr, env.cores) {
        Ok(n) => n,
        Err(e) => return Err(e),
    };
    let home = match &env.home {
        Some(s) => Some(s.as_str()),
        None => None,
    };
    let socket_dir = resolve_socket_dir(config.socket_dir.as_str(), home);
    let plan = LaunchPlan::new(socket_dir, count, config.idle_shutdown_secs);
    Ok(Prepared { seed, credentials, arguments: text::clone_texts(arguments), plan })
}

/// How far a command has come.
#[derive(Debug)]
pub enum Stage {
    /// The project root is being resolved.
    Root,
    /// The configuration is being loaded.
    Config { root: String },
    /// The artifacts are being materialized.
    Pour { root: String, config: LifecycleConfig },
    /// The modules are being discovered.
    Modules { root: String, config: LifecycleConfig },
    /// The daemon is being found or started.
    Launch { root: String, reactor: Reactor, prepared: Prepared },
    /// The actions are being run.
    Dispatch { root: String, reactor: Reactor, prepared: Prepared },
    /// The command is over.
    Over,
}

/// What a command waits for.
#[derive(Debug)]
pub enum Event {
    Root(Result<ProjectRoot, ResolveError>),
    Config(Result<LifecycleConfig, String>),
    Pour(Result<(), String>),
    Modules(Result<Reactor, ReactorError>, LifecycleEnv),
    Launch(Result<(), LauncherError>),
    Dispatch(Result<ModuleOutcome, VerifyError>, u64),
}

/// What a command asks for next.
#[derive(Debug)]
pub enum Action {
    /// Load the configuration; the project's own file is given.
    LoadConfig(String),
    /// Materialize the locked artifacts.
    Pour(PourArgs),
    /// Discover the modules below the root.
    DiscoverModules { phase: MavenPhase, include_clean: bool },
    /// Find or start the daemon.
    Launch,
    /// Run the actions of the only module.
    DispatchSingle,
    /// Run the levels of the reactor, at most so many modules at a time.
    DispatchReactor(usize),
    /// Report.
    Finish(Result<VerifyReport, VerifyError>),
}

/// Whether an event is the one that a stage waits for.
pub open spec fn event_fits(stage: Stage, event: Event) -> bool {
    match event {
        Event::Root(_) => stage is Root,
        Event::Config(_) => stage is Config,
        Event::Pour(_) => stage is Pour,
        Event::Modules(r, env) => stage is Modules && env.cores >= 1 && (r matches Ok(x)
            ==> planned(x.modules@) <= usize::MAX),
        Event::Launch(_) => stage is Launch,
        Event::Dispatch(_, _) => stage is Dispatch && planned(stage->Dispatch_reactor.modules@)
            <= usize::MAX,
    }
}

/// Whether a pour fills the local repository with what the compile scope needs.
pub open spec fn is_compile_pour(a: PourArgs) -> bool {
    a.target is None && a.scope == ScopeArg::Compile && !a.dry_run
}

/// The pour that comes before a build.
pub fn compile_pour() -> (r: PourArgs)
    ensures
        is_compile_pour(r),
{
    PourArgs { target: None, scope: ScopeArg::Compile, dry_run: false }
}

/// Whether an action discovers the modules for `phase`, without `clean` in front.
pub open spec fn discovers(phase: MavenPhase, action: Action) -> bool {
    action matches Action::DiscoverModules { phase: p, include_clean } && p == phase
        && !include_clean
}

/// Whether `next` and `action` are what a command for `phase` does at an event. The first
/// step that fails ends the command with its error. `clean` needs no artifacts and skips
/// the pour; every other phase pours before it discovers modules.
pub open spec fn is_step(
    phase: MavenPhase,
    ci: bool,
    named: Option<Seq<char>>,
    arguments: Seq<Seq<char>>,
    stage: Stage,
    event: Event,
    next: Stage,
    action: Action,
) -> bool {
    match (stage, event) {
        (Stage::Root, Event::Root(Ok(p))) => next == (Stage::Config { root: p.root })
            && (action matches Action::LoadConfig(path) && path@ == project::config_path(named, p.root@)),
        (Stage::Root, Event::Root(Err(e))) => next is Over && action == Action::Finish(
            Err(VerifyError::Project(e)),
        ),
        (Stage::Config { root }, Event::Config(Ok(config))) => if phase == MavenPhase::Clean {
            next == (Stage::Modules { root, config }) && discovers(phase, action)
        } else {
            next == (Stage::Pour { root, config }) && (action matches Action::Pour(a)
                && is_compile_pour(a))
        },
        (Stage::Config { root }, Event::Config(Err(d))) => next is Over && action
            == Action::Finish(Err(VerifyError::Config(d))),
        (Stage::Pour { root, config }, Event::Pour(Ok(_))) => next == (Stage::Modules {
            root,
            config,
        }) && discovers(phase, action),
        (Stage::Pour { root, config }, Event::Pour(Err(detail))) => next is Over && action
            == Action::Finish(Err(VerifyError::Pour { detail })),
        (Stage::Modules { root, config }, Event::Modules(Ok(x), env)) => match next {
            Stage::Launch { root: r, reactor: y, prepared } => r == root && y == x && action
                is Launch && is_prepared(phase, ci, arguments, config, env, prepared),
            _ => next is Over && (action matches Action::Finish(Err(e)) && is_unprepared(
                phase,
                config,
                env,
                e,
            )),
        },
        (Stage::Modules { root, config }, Event::Modules(Err(e), env)) => next is Over && action
            == Action::Finish(Err(VerifyError::Reactor(e))),
        (Stage::Launch { root, reactor, prepared }, Event::Launch(Ok(_))) => next
            == (Stage::Dispatch { root, reactor, prepared }) && action == (
        if reactor.modules@.len() == 1 {
            Action::DispatchSingle
        } else {
            Action::DispatchReactor(prepared.plan.workers)
        }),
        (Stage::Launch { root, reactor, prepared }, Event::Launch(Err(e))) => next is Over
            && action == Action::Finish(Err(VerifyError::Launcher(e))),
        (Stage::Dispatch { root, reactor, prepared }, Event::Dispatch(Ok(o), ms)) => next is Over
            && (action matches Action::Finish(Ok(r)) && is_report(phase, root, reactor, o, ms, r)),
        (Stage::Dispatch { root, reactor, prepared }, Event::Dispatch(Err(e), ms)) => next is Over
            && action == Action::Finish(Err(e)),
        _ => true,
    }
}

/// Whether `r` is the report of a command whose actions came to `o`.
pub open spec fn is_report(
    phase: MavenPhase,
    root: String,
    reactor: Reactor,
    o: ModuleOutcome,
    duration_ms: u64,
    r: VerifyReport,
) -> bool {
    &&& r.project_root == root
    &&& r.phase@ == maven_vocab::phase_name(phase)
    &&& r.planned_actions == planned(reactor.modules@)
    &&& r.executed_actions == o.executed
    &&& r.failed_actions == o.failed_actions
    &&& r.daemon_respawns == o.respawns
    &&& r.invocations == o.invocations
    &&& r.duration_ms == duration_ms
}

/// What a lifecycle command for `phase` does at an event. `--config` may have named the
/// configuration; `arguments` are the user's own.
pub fn dispatch_lifecycle(
    phase: MavenPhase,
    ci: bool,
    named: &Option<String>,
    arguments: &Vec<String>,
    stage: Stage,
    event: Event,
) -> (r: (Stage, Action))
    requires
        event_fits(stage, event),
    ensures
        is_step(
            phase,
            ci,
            text::opt_text(*named),
            text::texts(arguments@),
            stage,
            event,
            r.0,
            r.1,
        ),
{
    match (stage, event) {
        (Stage::Root, Event::Root(Ok(p))) => {
            let path = project::project_config(named, p.root.as_str());
            (Stage::Config { root: p.root }, Action::LoadConfig(path))
        },
        (Stage::Root, Event::Root(Err(e))) => (
            Stage::Over,
            Action::Finish(Err(VerifyError::Project(e))),
        ),
        (Stage::Config { root }, Event::Config(Ok(config))) => {
            if phase == MavenPhase::Clean {
                (
                    Stage::Modules { root, config },
                    Action::DiscoverModules { phase, include_clean: false },
                )
            } else {
                (Stage::Pour { root, config }, Action::Pour(compile_pour()))
            }
        },
        (Stage::Config { .. }, Event::Config(Err(d))) => (
            Stage::Over,
            Action::Finish(Err(VerifyError::Config(d))),
        ),
        (Stage::Pour { root, config }, Event::Pour(Ok(_))) => (
            Stage::Modules { root, config },
            Action::DiscoverModules { phase, include_clean: false },
        ),
        (Stage::Pour { .. }, Event::Pour(Err(detail))) => (
            Stage::Over,
            Action::Finish(Err(VerifyError::Pour { detail })),
        ),
        (Stage::Modules { root, config }, Event::Modules(Ok(x), env)) => {
            match prepare(phase, ci, arguments, &config, &env) {
                Ok(prepared) => (Stage::Launch { root, reactor: x, prepared }, Action::Launch),
                Err(e) => (Stage::Over, Action::Finish(Err(e))),
            }
        },
        (Stage::Modules { .. }, Event::Modules(Err(e), _)) => (
            Stage::Over,
            Action::Finish(Err(VerifyError::Reactor(e))),
        ),
        (Stage::Launch { root, reactor, prepared }, Event::Launch(Ok(_))) => {
            let action = if reactor.is_single_module() {
                Action::DispatchSingle
            } else {
                Action::DispatchReactor(prepared.plan.workers)
            };
            (Stage::Dispatch { root, reactor, prepared }, action)
        },
        (Stage::Launch { .. }, Event::Launch(Err(e))) => (
            Stage::Over,
            Action::Finish(Err(VerifyError::Launcher(e))),
        ),
        (Stage::Dispatch { root, reactor, .. }, Event::Dispatch(Ok(o), ms)) => {
            let planned_actions: usize = count_planned(&reactor.modules);
            let report = VerifyReport {
                project_root: root,
                phase: phase.as_str().to_owned(),
                planned_actions,
                executed_actions: o.executed,
                failed_actions: o.failed_actions,
                daemon_respawns: o.respawns,
                invocations: o.invocations,
                duration_ms: ms,
            };
            (Stage::Over, Action::Finish(Ok(report)))
        },
        (Stage::Dispatch { .. }, Event::Dispatch(Err(e), _)) => (
            Stage::Over,
            Action::Finish(Err(e)),
        ),
        _ => vstd::pervasive::unreached(),
    }
}

/// What `verify` does at an event.
pub fn run_inner(
    ci: bool,
    named: &Option<String>,
    arguments: &Vec<String>,
    stage: Stage,
    event: Event,
) -> (r: (Stage, Action))
    requires
        event_fits(stage, event),
    ensures
        is_step(
            MavenPhase::Verify,
            ci,
            text::opt_text(*named),
            text::texts(arguments@),
            stage,
            event,
            r.0,
            r.1,
        ),
{
    dispatch_lifecycle(MavenPhase::Verify, ci, named, arguments, stage, event)
}

/// The exit code of a command: that of its report, or that of its error.
pub open spec fn outcome_exit_code(o: Result<VerifyReport, VerifyError>) -> i32 {
    match o {
        Ok(r) => report_exit_code(r),
        Err(e) => error_exit_code(e),
    }
}

/// What a lifecycle command prints and how it exits.
#[derive(Debug, Clone, Copy, PartialEq, Eq, Structural)]
pub enum Printed {
    /// Nothing.
    Nothing,
    /// The report.
    Report,
    /// The error, for people.
    ErrorText,
    /// The error, as a document.
    ErrorDocument,
}

/// What is printed of an outcome: `quiet` leaves the report out, never an error.
pub open spec fn printed(
    outcome: Result<VerifyReport, VerifyError>,
    quiet: bool,
    human: bool,
) -> Printed {
    match outcome {
        Ok(_) => if quiet {
            Printed::Nothing
        } else {
            Printed::Report
        },
        Err(_) => if human {
            Printed::ErrorText
        } else {
            Printed::ErrorDocument
        },
    }
}

/// What a lifecycle command prints of its outcome, and its exit code.
pub fn run_phase(outcome: &Result<VerifyReport, VerifyError>, quiet: bool, human: bool) -> (r: (
    Printed,
    i32,
))
    ensures
        r.0 == printed(*outcome, quiet, human),
        r.1 == outcome_exit_code(*outcome),
{
    match outcome {
        Ok(report) => {
            let code: i32 = exit_code_of(report);
            if quiet {
                (Printed::Nothing, code)
            } else {
                (Printed::Report, code)
            }
        },
        Err(e) => {
            let code: i32 = e.exit_code();
            if human {
                (Printed::ErrorText, code)
            } else {
                (Printed::ErrorDocument, code)
            }
        },
    }
}

/// The exit code once everything was printed: a report that could not be written, or output
/// that could not be flushed, turns any exit code into a failure; an error that could not be
/// written keeps its own.
pub fn settled_exit_code(what: Printed, code: i32, written: bool, flushed: bool) -> (r: i32)
    ensures
        r == (if !flushed || (what is Report && !written) {
            1
        } else {
            code as int
        }),
{
    if !flushed {
        return 1;
    }
    if matches!(what, Printed::Report) && !written {
        return 1;
    }
    code
}

/// What `verify` prints of its outcome, and its exit code.
pub fn run(outcome: &Result<VerifyReport, VerifyError>, quiet: bool, human: bool) -> (r: (
    Printed,
    i32,
))
    ensures
        r.0 == printed(*outcome, quiet, human),
        r.1 == outcome_exit_code(*outcome),
{
    run_phase(outcome, quiet, human)
}

// ---------------------------------------------------------------------------
// Laws
// ---------------------------------------------------------------------------

/// `clean` never pours, and every other phase pours before its modules are discovered.
pub proof fn pour_precedes_modules(
    phase: MavenPhase,
    ci: bool,
    named: Option<Seq<char>>,
    arguments: Seq<Seq<char>>,
    stage: Stage,
    event: Event,
    next: Stage,
    action: Action,
)
    requires
        event_fits(stage, event),
        is_step(phase, ci, named, arguments, stage, event, next, action),
    ensures
        action is Pour ==> phase != MavenPhase::Clean && stage is Config,
        action is DiscoverModules && phase != MavenPhase::Clean ==> stage is Pour && (event matches
            Event::Pour(Ok(_))),
{
}

/// Credentials are settled for `deploy` alone, and the reproducibility seed under `--ci`
/// alone.
pub proof fn settled_only_where_needed(
    phase: MavenPhase,
    ci: bool,
    arguments: Seq<Seq<char>>,
    config: LifecycleConfig,
    env: LifecycleEnv,
    p: Prepared,
)
    requires
        is_prepared(phase, ci, arguments, config, env, p),
    ensures
        p.credentials is Some <==> phase == MavenPhase::Deploy,
        p.seed is Some <==> ci,
{
}

/// The user's arguments reach every request, verbatim and in their order, with a seed or
/// without.
pub proof fn arguments_reach_every_request(
    run: ModuleRun,
    credentials: Option<&Vec<Credential>>,
    seed: Option<&ReproducibilitySeed>,
    r: action_graph::RequestModel,
)
    requires
        run.is_next_request(credentials, seed, r),
    ensures
        r.arguments == text::texts(run.arguments@),
{
}

/// A command ends with success exactly where nothing failed.
pub proof fn success_means_no_failure(o: Result<VerifyReport, VerifyError>)
    ensures
        outcome_exit_code(o) == 0 <==> (o matches Ok(r) && r.failed_actions == 0),
        0 <= outcome_exit_code(o) <= 3,
{
}

/// Whether `runs` are the states of one run of modules from its start: it was told of `ends`
/// in turn, and then took `steps`.
pub open spec fn is_modules_run(
    levels: Seq<Vec<usize>>,
    at_most: nat,
    runs: Seq<ModulesRun>,
    ends: Seq<Option<(usize, ModuleEnd)>>,
    steps: Seq<Step>,
) -> bool {
    &&& runs.len() == steps.len() + 1
    &&& ends.len() == steps.len()
    &&& runs[0].schedule@ == schedule::fresh()
    &&& forall|k: int|
        0 <= k < steps.len() ==> modules_ran(
            levels,
            at_most,
            runs[k],
            ends[k],
            runs[k + 1],
            #[trigger] steps[k],
        )
}

/// How far the states of a run are.
pub open spec fn progress_of(runs: Seq<ModulesRun>) -> Seq<Progress> {
    runs.map_values(|r: ModulesRun| r.schedule@)
}

/// The ends that a run was told of.
pub open spec fn ends_of(ends: Seq<Option<(usize, ModuleEnd)>>) -> Seq<Option<(usize, bool)>> {
    ends.map_values(|e: Option<(usize, ModuleEnd)>| end_of(e))
}

/// A lifecycle command keeps to the order of its modules: at most as many run at a time as
/// there are workers, no module is started twice, and none before the levels below it are
/// done.
pub proof fn modules_keep_order(
    g: reactor::Graph,
    levels: Seq<Vec<usize>>,
    budget: usize,
    runs: Seq<ModulesRun>,
    ends: Seq<Option<(usize, ModuleEnd)>>,
    steps: Seq<Step>,
)
    requires
        reactor::are_levels(g, levels),
        is_modules_run(levels, schedule::permits(budget), runs, ends, steps),
    ensures
        reactor::keeps_levels(
            levels,
            schedule::permits(budget),
            progress_of(runs),
            ends_of(ends),
            steps,
        ),
        reactor::keeps_order(g, progress_of(runs), ends_of(ends), steps),
{
    let at_most = schedule::permits(budget);
    let states = progress_of(runs);
    modules_run_is_a_course(levels, at_most, runs, ends, steps);
    reactor::levels_are_distinct(g, levels);
    reactor::course_keeps_levels(levels, at_most, states, ends_of(ends), steps);
    reactor::course_keeps_order(g, levels, at_most, states, ends_of(ends), steps);
}

proof fn modules_run_is_a_course(
    levels: Seq<Vec<usize>>,
    at_most: nat,
    runs: Seq<ModulesRun>,
    ends: Seq<Option<(usize, ModuleEnd)>>,
    steps: Seq<Step>,
)
    requires
        is_modules_run(levels, at_most, runs, ends, steps),
    ensures
        schedule::is_course(levels, at_most, progress_of(runs), ends_of(ends), steps),
{
    let states = progress_of(runs);
    let told = ends_of(ends);
    assert forall|k: int| 0 <= k < steps.len() implies (states[k + 1], #[trigger] steps[k])
        == schedule::stepped(levels, at_most, schedule::told(states[k], told[k])) by {
        assert(modules_ran(levels, at_most, runs[k], ends[k], runs[k + 1], steps[k]));
    }
}

/// A lifecycle command that is done and that no module stopped has run every module.
pub proof fn unstopped_modules_are_complete(
    g: reactor::Graph,
    levels: Seq<Vec<usize>>,
    budget: usize,
    runs: Seq<ModulesRun>,
    ends: Seq<Option<(usize, ModuleEnd)>>,
    steps: Seq<Step>,
    i: usize,
)
    requires
        reactor::are_levels(g, levels),
        is_modules_run(levels, schedule::permits(budget), runs, ends, steps),
        steps.len() > 0,
        steps.last() is Done,
        !runs.last().schedule@.stopped,
        i < g.len(),
    ensures
        reactor::done_before(progress_of(runs), ends_of(ends), steps, i, steps.len() - 1),
{
    let at_most = schedule::permits(budget);
    modules_run_is_a_course(levels, at_most, runs, ends, steps);
    reactor::every_module_in_one_level(g, levels, i);
    let level = choose|k: int| 0 <= k < levels.len() && (#[trigger] levels[k])@.contains(i);
    reactor::unstopped_course_is_complete(
        levels,
        at_most,
        progress_of(runs),
        ends_of(ends),
        steps,
        level,
        i,
    );
}

/// A module that failed, or whose task was lost, ends the run with its level: the rest of the
/// level still runs, and nothing after it is started.
pub proof fn failed_module_ends_the_run(
    levels: Seq<Vec<usize>>,
    budget: usize,
    runs: Seq<ModulesRun>,
    ends: Seq<Option<(usize, ModuleEnd)>>,
    steps: Seq<Step>,
    i: int,
    j: int,
)
    requires
        is_modules_run(levels, schedule::permits(budget), runs, ends, steps),
        0 <= i < j < runs.len(),
        ends[i] matches Some((slot, e)) && stops_reactor(e)
            && runs[i].schedule@.running.contains(slot),
    ensures
        runs[j].schedule@.level == runs[i].schedule@.level,
        steps[j - 1] is Dispatch ==> levels[runs[i].schedule@.level]@.contains(
            steps[j - 1]->module,
        ),
        steps[j - 1] is Done ==> forall|x: usize| #[trigger]
            levels[runs[i].schedule@.level]@.contains(x) ==> reactor::done_before(
                progress_of(runs),
                ends_of(ends),
                steps,
                x,
                j - 1,
            ),
{
    let at_most = schedule::permits(budget);
    modules_run_is_a_course(levels, at_most, runs, ends, steps);
    if steps[j - 1] is Done {
        reactor::stopped_level_is_complete(
            levels,
            at_most,
            progress_of(runs),
            ends_of(ends),
            steps,
            i,
            j,
        );
    }
    schedule::stop_ends_with_its_level(
        levels,
        at_most,
        progress_of(runs),
        ends_of(ends),
        steps,
        i,
        j,
    );
}

/// Whether `c` is, field by field, the credential of the server `s`. A server without a user
/// name has an empty one.
pub open spec fn is_credential_of(c: action_graph::CredentialModel, s: Server) -> bool {
    &&& c.server_id == s.id@
    &&& s.username matches Some(u) ==> c.username == u@
    &&& s.username is None ==> c.username.len() == 0
    &&& s.password matches Some(pw) ==> c.password == Some(pw@)
    &&& s.password is None ==> c.password is None
}

/// Every credential that is sent is that of a server of the settings, and every server with an
/// identity has its credential, in the order of the settings. Servers without an identity are
/// left out.
pub proof fn credentials_are_those_of_the_settings(servers: Seq<Server>)
    requires
        credentials_for(servers) is Ok,
    ensures
        ({
            let cs = credentials_for(servers)->Ok_0;
            &&& cs.len() <= servers.len()
            &&& forall|k: int|
                0 <= k < cs.len() ==> exists|i: int|
                    k <= i < servers.len() && (#[trigger] servers[i]).id@.len() > 0
                        && is_credential_of(#[trigger] cs[k], servers[i])
            &&& forall|i: int|
                0 <= i < servers.len() && (#[trigger] servers[i]).id@.len() > 0 ==> exists|k: int|
                    0 <= k < cs.len() && k <= i && is_credential_of(#[trigger] cs[k], servers[i])
            &&& (forall|i: int| 0 <= i < servers.len() ==> (#[trigger] servers[i]).id@.len() > 0)
                ==> cs.len() == servers.len() && forall|i: int|
                0 <= i < servers.len() ==> is_credential_of(#[trigger] cs[i], servers[i])
        }),
    decreases servers.len(),
{
    let cs = credentials_for(servers)->Ok_0;
    if servers.len() > 0 {
        let rest = servers.drop_last();
        let last = servers.last();
        credentials_are_those_of_the_settings(rest);
        let before = credentials_for(rest)->Ok_0;
        assert(forall|i: int| 0 <= i < rest.len() ==> (#[trigger] servers[i]) == rest[i]);
        assert(forall|k: int| 0 <= k < before.len() ==> (#[trigger] cs[k]) == before[k]);
        assert forall|k: int| 0 <= k < cs.len() implies exists|i: int|
            k <= i < servers.len() && (#[trigger] servers[i]).id@.len() > 0 && is_credential_of(
                #[trigger] cs[k],
                servers[i],
            ) by {
            if k < before.len() {
                let i = choose|i: int|
                    k <= i < rest.len() && (#[trigger] rest[i]).id@.len() > 0 && is_credential_of(
                        before[k],
                        rest[i],
                    );
                assert(servers[i] == rest[i]);
            } else {
                assert(servers[servers.len() - 1] == last);
                assert(is_credential_of(cs[k], last));
            }
        }
        assert forall|i: int| 0 <= i < servers.len() && (#[trigger] servers[i]).id@.len()
            > 0 implies exists|k: int|
            0 <= k < cs.len() && k <= i && is_credential_of(#[trigger] cs[k], servers[i]) by {
            if i < rest.len() {
                assert(rest[i] == servers[i]);
                let k = choose|k: int|
                    0 <= k < before.len() && k <= i && is_credential_of(
                        #[trigger] before[k],
                        rest[i],
                    );
                assert(cs[k] == before[k]);
            } else {
                assert(is_credential_of(cs[before.len() as int], servers[i]));
            }
        }
        if forall|i: int| 0 <= i < servers.len() ==> (#[trigger] servers[i]).id@.len() > 0 {
            assert forall|i: int| 0 <= i < rest.len() implies (#[trigger] rest[i]).id@.len() > 0 by {
                assert(servers[i] == rest[i]);
            }
            assert(servers[servers.len() - 1].id@.len() > 0);
            assert(cs.len() == servers.len());
            assert forall|i: int| 0 <= i < servers.len() implies is_credential_of(
                #[trigger] cs[i],
                servers[i],
            ) by {
                if i < rest.len() {
                    assert(is_credential_of(before[i], rest[i]));
                }
            }
        }
    }
}

/// A deploy is refused exactly where a server with an identity has a password between braces,
/// and the first such server is named.
pub proof fn encrypted_server_is_named(servers: Seq<Server>)
    ensures
        credentials_for(servers) matches Err(id) ==> exists|i: int|
            0 <= i < servers.len() && (#[trigger] servers[i]).id@ == id && id.len() > 0
                && in_braces(servers[i]) && forall|j: int|
                0 <= j < i ==> (#[trigger] servers[j]).id@.len() == 0 || !in_braces(servers[j]),
        credentials_for(servers) is Ok ==> forall|i: int|
            0 <= i < servers.len() ==> (#[trigger] servers[i]).id@.len() == 0 || !in_braces(
                servers[i],
            ),
    decreases servers.len(),
{
    if servers.len() > 0 {
        let rest = servers.drop_last();
        encrypted_server_is_named(rest);
        assert(forall|i: int| 0 <= i < rest.len() ==> (#[trigger] servers[i]) == rest[i]);
        assert(servers[servers.len() - 1] == servers.last());
        if let Some(pw) = servers.last().password {
            braces_are_encryption(pw@);
        }
        match credentials_for(rest) {
            Err(id) => {
                let i = choose|i: int|
                    0 <= i < rest.len() && (#[trigger] rest[i]).id@ == id && id.len() > 0
                        && in_braces(rest[i]) && forall|j: int|
                        0 <= j < i ==> (#[trigger] rest[j]).id@.len() == 0 || !in_braces(rest[j]);
                assert(servers[i] == rest[i]);
                assert(forall|j: int|
                    0 <= j < i ==> (#[trigger] servers[j]).id@.len() == 0 || !in_braces(servers[j]));
            },
            Ok(_) => {
                assert(forall|j: int|
                    0 <= j < rest.len() ==> (#[trigger] servers[j]).id@.len() == 0 || !in_braces(
                        servers[j],
                    ));
            },
        }
    }
}

/// Whether the password of a server stands between braces.
pub open spec fn in_braces(s: Server) -> bool {
    s.password matches Some(pw) && braced(pw@)
}

/// Whether a text is another one between braces.
pub open spec fn braced(t: Seq<char>) -> bool {
    exists|inner: Seq<char>| t == #[trigger] (seq!['{'] + inner) + seq!['}']
}

/// A password is encrypted exactly where it stands between braces.
pub proof fn braces_are_encryption(pw: Seq<char>)
    ensures
        is_encrypted(pw) <==> braced(pw),
{
    if is_encrypted(pw) {
        let inner = pw.subrange(1, pw.len() - 1);
        assert(pw =~= seq!['{'] + inner + seq!['}']);
    }
}

/// What a deploy has settled: a credential for every server of the settings that has an
/// identity, and none for anything else. Nothing is settled where one is encrypted.
pub proof fn deploy_settles_its_credentials(
    ci: bool,
    arguments: Seq<Seq<char>>,
    config: LifecycleConfig,
    env: LifecycleEnv,
    p: Prepared,
)
    requires
        is_prepared(MavenPhase::Deploy, ci, arguments, config, env, p),
    ensures
        p.credentials matches Some(cs) && {
            &&& forall|k: int|
                0 <= k < cs@.len() ==> exists|i: int|
                    0 <= i < config.servers@.len() && is_credential_of(
                        #[trigger] cs@[k]@,
                        #[trigger] config.servers@[i],
                    )
            &&& forall|i: int|
                0 <= i < config.servers@.len() && (#[trigger] config.servers@[i]).id@.len() > 0
                    ==> exists|k: int|
                    0 <= k < cs@.len() && is_credential_of(
                        (#[trigger] cs@[k])@,
                        config.servers@[i],
                    )
        },
        forall|i: int|
            0 <= i < config.servers@.len() ==> (#[trigger] config.servers@[i]).id@.len() == 0
                || !in_braces(config.servers@[i]),
{
    let servers = config.servers@;
    credentials_are_those_of_the_settings(servers);
    encrypted_server_is_named(servers);
    let ms = credentials_for(servers)->Ok_0;
    let cs = p.credentials->0@;
    assert(ms == action_graph::credentials_of(cs));
    assert forall|k: int| 0 <= k < cs.len() implies exists|i: int|
        0 <= i < servers.len() && is_credential_of(#[trigger] cs[k]@, #[trigger] servers[i]) by {
        assert(ms[k] == cs[k]@);
        let i = choose|i: int|
            k <= i < servers.len() && (#[trigger] servers[i]).id@.len() > 0 && is_credential_of(
                ms[k],
                servers[i],
            );
        let s = servers[i];
    }
    assert forall|i: int| 0 <= i < servers.len() && (#[trigger] servers[i]).id@.len()
        > 0 implies exists|k: int|
        0 <= k < cs.len() && is_credential_of((#[trigger] cs[k])@, servers[i]) by {
        let k = choose|k: int|
            0 <= k < ms.len() && k <= i && is_credential_of(#[trigger] ms[k], servers[i]);
        assert(ms[k] == cs[k]@);
    }
}

/// The next request asks for the phase of the next action, in the module's directory, on its
/// `pom.xml` and for the run's project, with a seed or without. Where that phase is `deploy`,
/// it carries the credentials that were settled.
pub proof fn request_is_for_the_next_action(
    run: ModuleRun,
    credentials: Option<&Vec<Credential>>,
    seed: Option<&ReproducibilitySeed>,
    r: action_graph::RequestModel,
)
    requires
        run.valid(),
        !run.is_over(),
        run.is_next_request(credentials, seed, r),
    ensures
        r.mojo_coords == run.graph.actions@[run.invocations@.len() as int].phase@,
        r.working_directory == run.graph.module_root@,
        r.pom_path == run.graph.pom_path@,
        r.project_root == run.project_root@,
        r.mojo_coords == "deploy"@ ==> (credentials matches Some(cs) ==> (r.credentials matches Some(
            sent,
        ) && sent.len() == cs@.len() && forall|k: int|
            0 <= k < sent.len() ==> #[trigger] sent[k] == cs@[k]@)),
        r.mojo_coords == "deploy"@ && credentials is None ==> r.credentials is None,
        seed is None ==> r.environment.len() == 0 && r.system_properties.len() == 0,
{
}

/// The exit code tells what kind of error it was: 3 where deploy credentials are at fault, 2
/// where the setup of the project is, and 1 where the work itself failed.
pub proof fn exit_codes_tell_errors_apart(e: VerifyError)
    ensures
        error_exit_code(e) == 3 <==> (e is DeployAuthEncrypted || (e matches VerifyError::DaemonError {
            code,
            ..
        } && "BAR-DEPLOY-AUTH-"@.is_prefix_of(code@))),
        error_exit_code(e) == 2 <==> (e is Project || e is Config || e is Workers || e is Pour
            || e is Reactor),
        error_exit_code(e) == 1 <==> (e is Launcher || e is DaemonConnect || e is Ipc
            || e is PersistentCrash || e is PrematureClose || (e matches VerifyError::DaemonError {
            code,
            ..
        } && !"BAR-DEPLOY-AUTH-"@.is_prefix_of(code@))),
{
}

/// A report with a failure exits with 3 where one of its actions was refused for its deploy
/// credentials, else with 1; without a failure it exits with 0.
pub proof fn report_exits_by_its_failures(r: VerifyReport)
    ensures
        report_exit_code(r) == 0 <==> r.failed_actions == 0,
        report_exit_code(r) == 3 <==> r.failed_actions > 0 && exists|k: int|
            0 <= k < r.invocations@.len() && "BAR-DEPLOY-AUTH-"@.is_prefix_of(
                (#[trigger] r.invocations@[k]).error_code@,
            ),
        report_exit_code(r) == 0 || report_exit_code(r) == 1 || report_exit_code(r) == 3,
{
    if exists|k: int|
        0 <= k < r.invocations@.len() && "BAR-DEPLOY-AUTH-"@.is_prefix_of(
            (#[trigger] r.invocations@[k]).error_code@,
        ) {
        let k = choose|k: int|
            0 <= k < r.invocations@.len() && "BAR-DEPLOY-AUTH-"@.is_prefix_of(
                (#[trigger] r.invocations@[k]).error_code@,
            );
        assert(is_deploy_auth(r.invocations@[k].error_code@));
    }
}

/// `--quiet` hides a report and never an error; people get an error as text, programs as a
/// document.
pub proof fn quiet_never_hides_an_error(
    o: Result<VerifyReport, VerifyError>,
    quiet: bool,
    human: bool,
)
    ensures
        printed(o, quiet, human) is Nothing <==> o is Ok && quiet,
        printed(o, quiet, human) is Report <==> o is Ok && !quiet,
        printed(o, quiet, human) is ErrorText <==> o is Err && human,
        printed(o, quiet, human) is ErrorDocument <==> o is Err && !human,
{
}

/// A leading `~/` stands for the home directory; every other path, and every path where no
/// home is known, is taken as it is. `~` alone is the daemon's directory below the home.
pub proof fn tilde_is_the_home_directory(raw: Seq<char>, home: Option<Seq<char>>)
    ensures
        home is None ==> socket_dir_of(raw, home) == raw,
        home matches Some(h) ==> socket_dir_of("~/"@ + raw, home) == paths::joined_path(h, raw),
        home matches Some(h) ==> socket_dir_of("~"@, home) == paths::joined_path(h, ".barista/run"@),
        (raw.len() == 0 || raw[0] != '~') ==> socket_dir_of(raw, home) == raw,
{
    reveal_strlit("~/");
    reveal_strlit("~");
    let whole = "~/"@ + raw;
    assert(whole.skip(2) =~= raw);
    assert("~/"@ =~= whole.take(2));
    assert("~/"@.is_prefix_of(whole));
    assert(!"~/"@.is_prefix_of("~"@));
    if raw.len() == 0 || raw[0] != '~' {
        if "~/"@.is_prefix_of(raw) {
            assert(raw[0] == raw.subrange(0, 2)[0]);
        }
        assert(raw != "~"@) by {
            if raw == "~"@ {
                assert(raw[0] == '~');
            }
        }
    }
}

/// A command goes step by step: it launches the daemon only once its modules are known and
/// everything is settled, it runs actions only on a daemon that was launched, and it reports
/// only what its actions came to. A single module is run by itself, several as levels with as
/// many workers as were asked for.
pub proof fn steps_follow_each_other(
    phase: MavenPhase,
    ci: bool,
    named: Option<Seq<char>>,
    arguments: Seq<Seq<char>>,
    stage: Stage,
    event: Event,
    next: Stage,
    action: Action,
)
    requires
        event_fits(stage, event),
        is_step(phase, ci, named, arguments, stage, event, next, action),
    ensures
        action is LoadConfig ==> stage is Root && next is Config,
        action matches Action::Pour(a) ==> a.target is None && a.scope == ScopeArg::Compile
            && !a.dry_run && next is Pour,
        action matches Action::DiscoverModules { phase: p, include_clean } ==> p == phase
            && !include_clean && next is Modules,
        action is Launch ==> (event matches Event::Modules(Ok(x), _) && (next matches Stage::Launch {
            reactor,
            ..
        } && reactor == x)),
        action is DispatchSingle ==> (event matches Event::Launch(Ok(_))) && (
        stage matches Stage::Launch { reactor, .. } && reactor.modules@.len() == 1),
        action matches Action::DispatchReactor(n) ==> (event matches Event::Launch(Ok(_))) && (
        stage matches Stage::Launch { reactor, prepared, .. } && reactor.modules@.len() != 1 && n
            == prepared.plan.workers),
        action matches Action::Finish(Ok(r)) ==> (event matches Event::Dispatch(Ok(o), ms)
            && r.executed_actions == o.executed && r.failed_actions == o.failed_actions
            && r.daemon_respawns == o.respawns && r.invocations == o.invocations && r.duration_ms
            == ms && r.phase@ == maven_vocab::phase_name(phase)),
        action is Finish <==> next is Over,
        event matches Event::Root(Err(e)) ==> action == Action::Finish(
            Err::<VerifyReport, VerifyError>(VerifyError::Project(e)),
        ),
        event matches Event::Config(Err(d)) ==> action == Action::Finish(
            Err::<VerifyReport, VerifyError>(VerifyError::Config(d)),
        ),
        event matches Event::Pour(Err(detail)) ==> action == Action::Finish(
            Err::<VerifyReport, VerifyError>((VerifyError::Pour { detail })),
        ),
        event matches Event::Modules(Err(e), _) ==> action == Action::Finish(
            Err::<VerifyReport, VerifyError>(VerifyError::Reactor(e)),
        ),
        event matches Event::Launch(Err(e)) ==> action == Action::Finish(
            Err::<VerifyReport, VerifyError>(VerifyError::Launcher(e)),
        ),
        event matches Event::Dispatch(Err(e), _) ==> action == Action::Finish(
            Err::<VerifyReport, VerifyError>(e),
        ),
        event matches Event::Root(Ok(_)) ==> action is LoadConfig,
        event matches Event::Config(Ok(_)) ==> (action is Pour <==> phase != MavenPhase::Clean) && (
        action is DiscoverModules <==> phase == MavenPhase::Clean),
        event matches Event::Pour(Ok(_)) ==> action is DiscoverModules,
        event matches Event::Launch(Ok(_)) ==> action is DispatchSingle || action is DispatchReactor,
        event matches Event::Dispatch(Ok(_), _) ==> (action matches Action::Finish(Ok(_))),
{
}

/// What is settled for the daemon comes from the configuration and the environment: its socket
/// in the configured directory, its idle time, and the workers that the environment asks for.
pub proof fn daemon_is_set_up_as_configured(
    phase: MavenPhase,
    ci: bool,
    arguments: Seq<Seq<char>>,
    config: LifecycleConfig,
    env: LifecycleEnv,
    p: Prepared,
)
    requires
        is_prepared(phase, ci, arguments, config, env, p),
    ensures
        p.plan.idle_shutdown_secs == config.idle_shutdown_secs,
        p.plan.socket_path@ == paths::joined_path(p.plan.socket_dir@, "barback.sock"@),
        config.socket_dir@.len() > 0 && config.socket_dir@[0] != '~' ==> p.plan.socket_dir@
            == config.socket_dir@,
        text::texts(p.arguments@) == arguments,
        env.workers_expr matches Some(s) ==> workers::workers(
            text::trimmed(s@),
            env.cores as nat,
        ) == Ok::<nat, Seq<char>>(p.plan.workers as nat),
{
    tilde_is_the_home_directory(config.socket_dir@, text::opt_text(env.home));
}

/// The record of an action tells what it came to: its phase and module, the daemon's exit code
/// and message, and the status by its name in the protocol.
pub proof fn invocation_tells_what_happened(
    i: MojoInvocation,
    phase: Seq<char>,
    module: Seq<char>,
    outcome: RespawnOutcome,
    duration_ms: u64,
)
    requires
        is_invocation(i, phase, module, outcome, duration_ms),
    ensures
        i.phase@ == phase && i.module@ == module && i.duration_ms == duration_ms,
        i.exit_code == outcome.result.exit_code,
        i.failure_message == outcome.result.failure_message,
        i.mojo == outcome.result.action_id,
        outcome.result.error_code matches Some(c) ==> i.error_code@ == c@,
        outcome.result.error_code is None ==> i.error_code@.len() == 0,
        outcome.result.status == 1 ==> i.status@ == "success"@,
        outcome.result.status == 2 ==> i.status@ == "failure"@,
        outcome.result.status == 3 ==> i.status@ == "timeout"@,
        outcome.result.status == 4 ==> i.status@ == "crashed"@,
        outcome.result.status == 5 ==> i.status@ == "cancelled"@,
        outcome.result.status < 1 || outcome.result.status > 5 ==> i.status@ == "unknown"@,
{
}

/// What modules came to adds up: the outcomes of two groups of modules, one behind the other,
/// are the sums of both, and their invocations stay in the order of the modules. A module that
/// did not run adds nothing, one that ran adds what it came to. The first module that could
/// not be run decides.
pub proof fn totals_add_up(
    a: Seq<Option<Result<ModuleOutcome, VerifyError>>>,
    b: Seq<Option<Result<ModuleOutcome, VerifyError>>>,
)
    ensures
        totals(a) is Err ==> totals(a + b) == totals(a),
        totals(a) is Ok && totals(b) is Err ==> totals(a + b) == totals(b),
        totals(a) matches Ok(x) ==> (totals(b) matches Ok(y) ==> (totals(a + b) matches Ok(t)
            && t.invocations == x.invocations + y.invocations && t.executed == x.executed
            + y.executed && t.failed_actions == x.failed_actions + y.failed_actions && t.respawns
            == saturated(x.respawns, y.respawns))),
        b.len() == 1 ==> match b[0] {
            None => totals(b) matches Ok(t) && t.invocations.len() == 0 && t.executed == 0
                && t.failed_actions == 0 && t.respawns == 0,
            Some(Err(e)) => totals(b) == Err::<Totals, VerifyError>(e),
            Some(Ok(o)) => totals(b) matches Ok(t) && t.invocations == o.invocations@ && t.executed
                == o.executed && t.failed_actions == o.failed_actions && t.respawns == o.respawns,
        },
    decreases b.len(),
{
    if b.len() == 1 {
        reveal_with_fuel(totals, 2);
        assert(b.drop_last() =~= Seq::empty());
        assert(b.last() == b[0]);
        if let Some(Ok(o)) = b[0] {
            assert(Seq::<MojoInvocation>::empty() + o.invocations@ =~= o.invocations@);
        }
    }
    if b.len() == 0 {
        assert(a + b =~= a);
        if let Ok(x) = totals(a) {
            assert(x.invocations + Seq::empty() =~= x.invocations);
            respawns_stay_in_range(a);
        }
    } else {
        let rest = b.drop_last();
        totals_add_up(a, rest);
        assert((a + b).drop_last() =~= a + rest);
        assert((a + b).last() == b.last());
        if totals(a) is Ok && totals(rest) is Ok && b.last() is Some && b.last()->0 is Ok {
            let x = totals(a)->Ok_0;
            let y = totals(rest)->Ok_0;
            let o = b.last()->0->Ok_0;
            assert((x.invocations + y.invocations) + o.invocations@ =~= x.invocations + (
            y.invocations + o.invocations@));
        }
    }
}

proof fn respawns_stay_in_range(a: Seq<Option<Result<ModuleOutcome, VerifyError>>>)
    ensures
        totals(a) matches Ok(t) ==> t.respawns <= u32::MAX,
    decreases a.len(),
{
    if a.len() > 0 {
        respawns_stay_in_range(a.drop_last());
    }
}

/// The planned actions are those of all modules together.
pub proof fn planned_actions_add_up(a: Seq<reactor::ModuleNode>, b: Seq<reactor::ModuleNode>)
    ensures
        planned(a + b) == planned(a) + planned(b),
        b.len() == 1 ==> planned(b) == b[0].action_graph.actions@.len(),
        b.len() == 0 ==> planned(b) == 0,
    decreases b.len(),
{
    if b.len() == 0 {
        assert(a + b =~= a);
    } else {
        planned_actions_add_up(a, b.drop_last());
        assert((a + b).drop_last() =~= a + b.drop_last());
        if b.len() == 1 {
            assert(b.drop_last() =~= Seq::empty());
        }
    }
}

/// A report counts as planned what the plans of the modules hold.
pub proof fn report_counts_all_plans(
    phase: MavenPhase,
    root: String,
    reactor: Reactor,
    o: ModuleOutcome,
    ms: u64,
    r: VerifyReport,
)
    requires
        is_report(phase, root, reactor, o, ms, r),
    ensures
        reactor.modules@.len() == 1 ==> r.planned_actions
            == reactor.modules@[0].action_graph.actions@.len(),
        r.project_root == root,
{
    if reactor.modules@.len() == 1 {
        planned_actions_add_up(Seq::empty(), reactor.modules@);
    }
}

/// Respawns are counted up to what a count can hold.
pub proof fn respawns_are_counted(a: nat, b: nat)
    ensures
        a + b <= 0xffff_ffff ==> saturated(a, b) == a + b,
        a + b > 0xffff_ffff ==> saturated(a, b) == 0xffff_ffff,
{
}

/// A module stops the levels after it exactly where it did not end well: it could not be run,
/// its task was lost, or an action of it failed.
pub proof fn only_failures_stop_the_levels(e: ModuleEnd)
    ensures
        !stops_reactor(e) <==> (e matches ModuleEnd::Ended(Ok(o)) && o.failed_actions == 0),
{
}

/// What a module came to is kept under its own index, and stays, whatever other modules come
/// to.
pub proof fn module_outcome_is_kept(
    levels: Seq<Vec<usize>>,
    budget: usize,
    runs: Seq<ModulesRun>,
    ends: Seq<Option<(usize, ModuleEnd)>>,
    steps: Seq<Step>,
    i: int,
    slot: usize,
    outcome: Result<ModuleOutcome, VerifyError>,
    j: int,
)
    requires
        is_modules_run(levels, schedule::permits(budget), runs, ends, steps),
        reactor::names_modules(levels, runs[0].slots@.len()),
        schedule::distinct(levels),
        0 <= i < j < runs.len(),
        ends[i] == Some((slot, ModuleEnd::Ended(outcome))),
        runs[i].schedule@.running.contains(slot),
    ensures
        runs[j].slots@.len() == runs[0].slots@.len(),
        runs[j].slots@[levels[runs[i].schedule@.level]@[slot as int] as int] == Some(outcome),
    decreases j,
{
    let at_most = schedule::permits(budget);
    let states = progress_of(runs);
    modules_run_is_a_course(levels, at_most, runs, ends, steps);
    assert(modules_ran(levels, at_most, runs[j - 1], ends[j - 1], runs[j], steps[j - 1]));
    slots_keep_their_number(levels, at_most, runs, ends, steps, j - 1);
    schedule::permits_are_kept(levels, at_most, states, ends_of(ends), steps, i);
    schedule::permits_are_kept(levels, at_most, states, ends_of(ends), steps, j - 1);
    let level = runs[i].schedule@.level;
    assert(states[i].running.contains(slot));
    assert(levels[level]@[slot as int] < runs[0].slots@.len());
    if i < j - 1 {
        module_outcome_is_kept(levels, budget, runs, ends, steps, i, slot, outcome, j - 1);
        schedule::ended_task_stays_ended(
            levels,
            at_most,
            states,
            ends_of(ends),
            steps,
            i,
            slot,
            j - 1,
        );
        if let Some((s, ModuleEnd::Ended(_))) = ends[j - 1] {
            if states[j - 1].running.contains(s) {
                let other = states[j - 1].level;
                assert(levels[other]@[s as int] < runs[0].slots@.len());
                if levels[other]@[s as int] == levels[level]@[slot as int] {
                    assert(other == level && s == slot);
                }
            }
        }
    }
}

proof fn slots_keep_their_number(
    levels: Seq<Vec<usize>>,
    at_most: nat,
    runs: Seq<ModulesRun>,
    ends: Seq<Option<(usize, ModuleEnd)>>,
    steps: Seq<Step>,
    j: int,
)
    requires
        is_modules_run(levels, at_most, runs, ends, steps),
        reactor::names_modules(levels, runs[0].slots@.len()),
        at_most >= 1,
        0 <= j < runs.len(),
    ensures
        runs[j].slots@.len() == runs[0].slots@.len(),
    decreases j,
{
    if j > 0 {
        slots_keep_their_number(levels, at_most, runs, ends, steps, j - 1);
        assert(modules_ran(levels, at_most, runs[j - 1], ends[j - 1], runs[j], steps[j - 1]));
        let states = progress_of(runs);
        modules_run_is_a_course(levels, at_most, runs, ends, steps);
        schedule::permits_are_kept(levels, at_most, states, ends_of(ends), steps, j - 1);
        if let Some((slot, ModuleEnd::Ended(_))) = ends[j - 1] {
            if states[j - 1].running.contains(slot) {
                assert(levels[states[j - 1].level]@[slot as int] < runs[0].slots@.len());
            }
        }
    }
}

/// Output that could not be written makes the command fail; otherwise its own exit code stands.
pub proof fn unwritten_output_fails(
    what: Printed,
    code: i32,
    written: bool,
    flushed: bool,
    r: i32,
)
    requires
        call_ensures(settled_exit_code, (what, code, written, flushed), r),
    ensures
        !flushed ==> r == 1,
        what is Report && !written ==> r == 1,
        flushed && (what !is Report || written) ==> r == code,
{
}

/// A module that broke off is an error of the reactor that names the module.
pub proof fn broken_module_is_named(module_root: &str, detail: &str, r: VerifyError)
    requires
        call_ensures(panicked_module, (module_root, detail), r),
    ensures
        r matches VerifyError::Ipc { phase, detail: d } && phase@ == "reactor"@ && d@
            == "module task panicked at "@ + text::quoted_path_text(module_root@) + ": "@
            + detail@,
{
}

/// As many workers are used as the expression asks for, and one for each core where there is
/// none.
pub proof fn workers_are_as_many_as_asked(
    expr: Option<&str>,
    cores: usize,
    r: Result<usize, VerifyError>,
    n: nat,
)
    requires
        call_ensures(resolve_workers_from_config, (expr, cores), r),
        1 <= cores <= isize::MAX,
        1 <= n <= usize::MAX,
    ensures
        expr matches Some(s) ==> (s@ == text::dec(n) ==> (r matches Ok(m) && m == n)),
        expr is None ==> (r matches Ok(m) && m == cores),
{
    workers::plain_number_is_the_count(n, cores as nat);
    text::printed_number_reads_back(n);
    if expr is None {
        reveal_strlit("1C");
        text::printed_number_reads_back(1);
        assert(text::dec(1) =~= seq!['1']);
        assert("1C"@ =~= text::dec(1).push('C'));
        reveal_with_fuel(text::trimmed_start, 2);
        reveal_with_fuel(text::trimmed_end, 2);
        assert(text::trimmed("1C"@) =~= "1C"@);
        assert(cores as nat * 1 == cores) by (nonlinear_arith);
        workers::whole_multiples_are_of_the_cores(1, cores as nat);
    }
}

/// Where every server of the settings has an identity, what is sent to the daemon is one
/// credential for each, with the user name and the password of that server and of no other.
pub proof fn sent_credentials_are_those_of_their_servers(
    servers: &Vec<Server>,
    r: Result<Vec<Credential>, VerifyError>,
    i: int,
)
    requires
        call_ensures(build_deploy_credentials, (servers,), r),
        forall|j: int| 0 <= j < servers@.len() ==> (#[trigger] servers@[j]).id@.len() > 0,
        0 <= i < servers@.len(),
    ensures
        r matches Ok(cs) ==> {
            &&& cs@.len() == servers@.len()
            &&& cs@[i].server_id@ == servers@[i].id@
            &&& servers@[i].username matches Some(u) ==> cs@[i].username@ == u@
            &&& servers@[i].username is None ==> cs@[i].username@.len() == 0
            &&& servers@[i].password matches Some(pw) ==> (cs@[i].password matches Some(q) && q@
                == pw@)
            &&& servers@[i].password is None ==> cs@[i].password is None
        },
{
    if let Ok(cs) = r {
        credentials_are_those_of_the_settings(servers@);
        let m = credentials_for(servers@)->Ok_0;
        assert(action_graph::credentials_of(cs@) == m);
        assert(action_graph::credentials_of(cs@).len() == cs@.len());
        assert(action_graph::credentials_of(cs@)[i] == cs@[i]@);
        assert(is_credential_of(m[i], servers@[i]));
    }
}

/// What several modules came to is counted as the outcome counts it.
pub proof fn totals_are_those_of_the_outcome(o: ModuleOutcome)
    ensures
        outcome_totals(o).invocations == o.invocations@,
        outcome_totals(o).executed == o.executed,
        outcome_totals(o).failed_actions == o.failed_actions,
        outcome_totals(o).respawns == o.respawns,
{
}

/// An error of a phase names the phase, and a credential that cannot be used its server.
pub proof fn errors_name_what_they_are_about(e: VerifyError)
    ensures
        e matches VerifyError::DaemonConnect { phase, .. } ==> ("phase "@ + phase@ + ": "@).is_prefix_of(
            verify_text(e),
        ),
        e matches VerifyError::Ipc { phase, .. } ==> ("phase "@ + phase@ + ": "@).is_prefix_of(
            verify_text(e),
        ),
        e matches VerifyError::DaemonError { phase, code, message } ==> verify_text(e) == "phase "@
            + phase@ + ": daemon error: "@ + code@ + ": "@ + message@,
        e matches VerifyError::PersistentCrash { phase } ==> ("phase "@ + phase@ + ": "@).is_prefix_of(
            verify_text(e),
        ),
        e matches VerifyError::PrematureClose { phase } ==> ("phase "@ + phase@ + ": "@).is_prefix_of(
            verify_text(e),
        ),
        e matches VerifyError::DeployAuthEncrypted { server_id } ==> ("deploy: server '"@
            + server_id@ + "'"@).is_prefix_of(verify_text(e)),
        e matches VerifyError::Config(d) ==> verify_text(e) == "config load: "@ + d@,
        e matches VerifyError::Workers { detail } ==> verify_text(e) == "workers config: "@
            + detail@,
{
    reveal_strlit(": ");
    reveal_strlit(": connect to daemon at ");
    reveal_strlit(": ipc: ");
    reveal_strlit(
        ": persistent daemon crash — barback crashed mid-action twice in a row (",
    );
    reveal_strlit(": daemon disconnected before action terminated");
    reveal_strlit("'");
    reveal_strlit(
        "' has a master-password-encrypted credential in settings.xml; \n  code: BAR-DEPLOY-AUTH-ENCRYPTED\n  hint: master-password decryption is a documented follow-up; use a plaintext credential or configure auth via environment variables until barista grows the decryption pipeline",
    );
}

} // verus!
