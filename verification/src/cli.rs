//! The command-line surface: flags, subcommands and where each one is routed.

use vstd::prelude::*;

use crate::action_graph;
use crate::cmd::maven_vocab::MavenPhase;

verus! {

/// A parsed command line.
#[derive(Debug)]
pub struct Cli {
    pub global: GlobalFlags,
    pub command: Command,
}

/// The flags that every subcommand accepts.
#[derive(Debug)]
pub struct GlobalFlags {
    /// The output format.
    pub output: OutputFormat,
    /// Shortcut for `--frozen --output json --quiet --no-color`.
    pub ci: bool,
    /// Suppress non-essential output.
    pub quiet: bool,
    /// How often `-v` was given.
    pub verbose: u8,
    /// `--root <dir>`.
    pub root: Option<String>,
    /// `-f` / `--file <pom>`.
    pub file: Option<String>,
    /// Refuse unresolvable conflicts.
    pub strict: bool,
    /// Take the lockfile on disk as authoritative.
    pub frozen: bool,
    /// Bypass the daemon.
    pub no_daemon: bool,
    /// Maven compatibility mode.
    pub maven_compat: Option<MavenCompatFlag>,
    /// The project's `barista.toml`.
    pub config: Option<String>,
    /// Disable colours.
    pub no_color: bool,
}

/// The output format.
#[derive(Debug, Clone, Copy, PartialEq, Eq, Structural)]
pub enum OutputFormat {
    /// Text for people.
    Human,
    /// One JSON document.
    Json,
    /// One JSON document per line, as events happen.
    Ndjson,
}

/// Maven compatibility level.
#[derive(Debug, Clone, Copy, PartialEq, Eq, Structural)]
pub enum MavenCompatFlag {
    /// Detect from the project.
    Auto,
    /// Maven 3.9.
    ThreeNine,
    /// Maven 4.0.
    FourZero,
}

/// A subcommand with its arguments.
#[derive(Debug)]
pub enum Command {
    /// Resolve dependencies and write the lockfile.
    Pull(PullArgs),
    /// Inspect the dependency graph.
    Grind { subcommand: GrindCommand },
    /// Materialize artifacts into a directory.
    Pour(PourArgs),
    /// Configuration wizard.
    DialIn(DialInArgs),
    /// Run one phase on the warm path.
    Shot(ShotArgs),
    /// Generate wrapper scripts.
    Wrapper(WrapperArgs),
    Clean(MavenVocabArgs),
    Compile(MavenVocabArgs),
    Test(MavenVocabArgs),
    Package(MavenVocabArgs),
    Verify(MavenVocabArgs),
    Install(MavenVocabArgs),
    Deploy(MavenVocabArgs),
    Site(MavenVocabArgs),
}

/// Arguments of `pull`.
#[derive(Debug)]
pub struct PullArgs {
    /// Ignore the lockfile on disk.
    pub update: bool,
    /// The Maven scope to resolve.
    pub scope: ScopeArg,
    /// Download nothing.
    pub no_fetch: bool,
    /// Print the rationale.
    pub explain: bool,
}

/// A Maven dependency scope.
#[derive(Debug, Clone, Copy, PartialEq, Eq, Structural)]
pub enum ScopeArg {
    Compile,
    Runtime,
    Test,
    Provided,
    System,
}

/// Subcommands of `grind`.
#[derive(Debug)]
pub enum GrindCommand {
    /// Render the dependency tree.
    Tree(TreeArgs),
    /// Compare two lockfiles.
    Diff(DiffArgs),
    /// Query for security and version concerns.
    Audit(AuditArgs),
    /// Explain why a coordinate is in the graph.
    Why(WhyArgs),
}

/// Arguments of `grind tree`.
#[derive(Debug)]
pub struct TreeArgs {
    pub format: TreeFormat,
}

/// The format of `grind tree`.
#[derive(Debug, Clone, Copy, PartialEq, Eq, Structural)]
pub enum TreeFormat {
    Text,
    Json,
}

/// Arguments of `grind diff`.
#[derive(Debug)]
pub struct DiffArgs {
    /// The git ref to compare with.
    pub base_ref: String,
}

/// Arguments of `grind audit`.
#[derive(Debug)]
pub struct AuditArgs {}

/// Arguments of `grind why`.
#[derive(Debug)]
pub struct WhyArgs {
    /// The coordinate to explain.
    pub coords: String,
}

/// Arguments of `pour`.
#[derive(Debug)]
pub struct PourArgs {
    /// The directory to fill; `~/.m2/repository` by default.
    pub target: Option<String>,
    /// The Maven scope to materialize.
    pub scope: ScopeArg,
    /// Write nothing.
    pub dry_run: bool,
}

/// Arguments of `dial-in`.
#[derive(Debug)]
pub struct DialInArgs {
    /// Take the default for every answer.
    pub non_interactive: bool,
    /// Where to write; `~/.barista/config.toml` by default.
    pub output_path: Option<String>,
    /// Overwrite an existing file.
    pub force: bool,
}

/// Arguments of `shot`.
#[derive(Debug)]
pub struct ShotArgs {
    /// The phase and what is forwarded with it.
    pub args: Vec<String>,
}

/// Arguments of `wrapper`.
#[derive(Debug)]
pub struct WrapperArgs {
    /// The version to pin.
    pub version: Option<String>,
    /// The download-URL template.
    pub distribution_url: Option<String>,
    /// The checksum of the release archive.
    pub checksum: Option<String>,
    /// Overwrite an existing wrapper.
    pub force: bool,
}

/// Arguments of the Maven lifecycle commands, passed through as they are.
#[derive(Debug)]
pub struct MavenVocabArgs {
    pub args: Vec<String>,
}

/// The command that a command line is routed to.
#[derive(Debug)]
pub enum Route {
    Pull(PullArgs),
    Grind(GrindCommand),
    Pour(PourArgs),
    DialIn(DialInArgs),
    Shot(ShotArgs),
    Wrapper(WrapperArgs),
    /// A phase of the Maven lifecycle.
    Lifecycle(MavenPhase, MavenVocabArgs),
}

/// `g` with the `--ci` shortcut spelled out.
pub open spec fn ci_expanded(g: GlobalFlags) -> GlobalFlags {
    if g.ci {
        GlobalFlags {
            frozen: true,
            quiet: true,
            output: OutputFormat::Json,
            no_color: true,
            ..g
        }
    } else {
        g
    }
}

/// Where a subcommand is routed.
pub open spec fn route_of(c: Command) -> Route {
    match c {
        Command::Pull(a) => Route::Pull(a),
        Command::Grind { subcommand } => Route::Grind(subcommand),
        Command::Pour(a) => Route::Pour(a),
        Command::DialIn(a) => Route::DialIn(a),
        Command::Shot(a) => Route::Shot(a),
        Command::Wrapper(a) => Route::Wrapper(a),
        Command::Clean(a) => Route::Lifecycle(MavenPhase::Clean, a),
        Command::Compile(a) => Route::Lifecycle(MavenPhase::Compile, a),
        Command::Test(a) => Route::Lifecycle(MavenPhase::Test, a),
        Command::Package(a) => Route::Lifecycle(MavenPhase::Package, a),
        Command::Verify(a) => Route::Lifecycle(MavenPhase::Verify, a),
        Command::Install(a) => Route::Lifecycle(MavenPhase::Install, a),
        Command::Deploy(a) => Route::Lifecycle(MavenPhase::Deploy, a),
        Command::Site(a) => Route::Lifecycle(MavenPhase::Site, a),
    }
}

/// Spells out `--ci` and routes the subcommand.
pub fn dispatch(cli: Cli) -> (r: (GlobalFlags, Route))
    ensures
        r.0 == ci_expanded(cli.global),
        r.1 == route_of(cli.command),
{
    let Cli { global, command } = cli;
    let mut g = global;
    if g.ci {
        g.frozen = true;
        g.quiet = true;
        g.output = OutputFormat::Json;
        g.no_color = true;
    }
    let route = match command {
        Command::Pull(a) => Route::Pull(a),
        Command::Grind { subcommand } => Route::Grind(subcommand),
        Command::Pour(a) => Route::Pour(a),
        Command::DialIn(a) => Route::DialIn(a),
        Command::Shot(a) => Route::Shot(a),
        Command::Wrapper(a) => Route::Wrapper(a),
        Command::Clean(a) => Route::Lifecycle(MavenPhase::Clean, a),
        Command::Compile(a) => Route::Lifecycle(MavenPhase::Compile, a),
        Command::Test(a) => Route::Lifecycle(MavenPhase::Test, a),
        Command::Package(a) => Route::Lifecycle(MavenPhase::Package, a),
        Command::Verify(a) => Route::Lifecycle(MavenPhase::Verify, a),
        Command::Install(a) => Route::Lifecycle(MavenPhase::Install, a),
        Command::Deploy(a) => Route::Lifecycle(MavenPhase::Deploy, a),
        Command::Site(a) => Route::Lifecycle(MavenPhase::Site, a),
    };
    (g, route)
}

/// Under `--ci` the build is frozen, quiet, without colours and reports JSON.
pub proof fn ci_implies_its_flags(g: GlobalFlags)
    requires
        g.ci,
    ensures
        ci_expanded(g).frozen,
        ci_expanded(g).quiet,
        ci_expanded(g).no_color,
        ci_expanded(g).output == OutputFormat::Json,
{
}

/// Spelling `--ci` out a second time changes nothing, and every flag that it does not
/// name is left as the user gave it.
pub proof fn ci_expansion_is_idempotent(g: GlobalFlags)
    ensures
        ci_expanded(ci_expanded(g)) == ci_expanded(g),
        ci_expanded(g).ci == g.ci,
        ci_expanded(g).verbose == g.verbose,
        ci_expanded(g).root == g.root,
        ci_expanded(g).file == g.file,
        ci_expanded(g).strict == g.strict,
        ci_expanded(g).no_daemon == g.no_daemon,
        ci_expanded(g).maven_compat == g.maven_compat,
        ci_expanded(g).config == g.config,
{
}

/// Without `--ci` every flag is as the user gave it.
pub proof fn without_ci_nothing_is_implied(g: GlobalFlags)
    requires
        !g.ci,
    ensures
        ci_expanded(g) == g,
{
}

/// Every lifecycle command ends with the phase that it is named after, and hands on the
/// arguments that it was given; no other command runs a phase.
pub proof fn commands_run_their_own_phase(c: Command, module_root: Seq<char>)
    ensures
        match (c, route_of(c)) {
            (Command::Clean(a), Route::Lifecycle(p, b)) => a == b && ends_with(p, module_root, "clean"@),
            (Command::Compile(a), Route::Lifecycle(p, b)) => a == b && ends_with(
                p,
                module_root,
                "compile"@,
            ),
            (Command::Test(a), Route::Lifecycle(p, b)) => a == b && ends_with(p, module_root, "test"@),
            (Command::Package(a), Route::Lifecycle(p, b)) => a == b && ends_with(
                p,
                module_root,
                "package"@,
            ),
            (Command::Verify(a), Route::Lifecycle(p, b)) => a == b && ends_with(
                p,
                module_root,
                "verify"@,
            ),
            (Command::Install(a), Route::Lifecycle(p, b)) => a == b && ends_with(
                p,
                module_root,
                "install"@,
            ),
            (Command::Deploy(a), Route::Lifecycle(p, b)) => a == b && ends_with(
                p,
                module_root,
                "deploy"@,
            ),
            (Command::Site(a), Route::Lifecycle(p, b)) => a == b && ends_with(p, module_root, "site"@),
            (Command::Pull(a), Route::Pull(b)) => a == b,
            (Command::Grind { subcommand }, Route::Grind(b)) => subcommand == b,
            (Command::Pour(a), Route::Pour(b)) => a == b,
            (Command::DialIn(a), Route::DialIn(b)) => a == b,
            (Command::Shot(a), Route::Shot(b)) => a == b,
            (Command::Wrapper(a), Route::Wrapper(b)) => a == b,
            _ => false,
        },
{
    if let Route::Lifecycle(p, _) = route_of(c) {
        action_graph::plan_begins_and_ends(p, module_root, false);
    }
}

/// Whether the plan of a goal ends with the phase `name`.
pub open spec fn ends_with(p: MavenPhase, module_root: Seq<char>, name: Seq<char>) -> bool {
    action_graph::lifecycle_model(p, module_root, false).plan.last().0 == name
}

} // verus!
