//! `barista pull`: resolve the dependencies, fetch the artifacts, write the lockfile.
//!
//! The work outside (network, cache, file system) is asked for one piece at a time. What
//! came back is kept as answers, and what to do next is a function of the answers alone.

use vstd::prelude::*;
use vstd::string::*;

use crate::cli::{OutputFormat, ScopeArg};
use crate::cmd::pour;
use crate::cmd::wrapper;
use crate::digest;
use crate::lockfile;
use crate::lockfile::{Lockfile, LockfileEntry, LockfileMeta};
use crate::output::ndjson;
use crate::output::progress;
use crate::output::progress::ProgressEvent;
use crate::output::report::{LockfileStatus, PullReport};
use crate::paths;
use crate::project;
use crate::project::{ProjectRoot, ResolveError};
use crate::text;

verus! {

/// Where artifacts come from unless something else is configured.
pub const MAVEN_CENTRAL: &'static str = "https://repo.maven.apache.org/maven2";

// ---------------------------------------------------------------------------
// Errors
// ---------------------------------------------------------------------------

/// Why `pull` failed.
#[derive(Debug)]
pub enum PullError {
    Project(ResolveError),
    Config(String),
    Io { path: String, source: String },
    PomParse(String),
    PomResolve(String),
    Lockfile(String),
    CacheOpen { path: String, detail: String },
    IndexOpen { path: String, detail: String },
    Fetcher { detail: String },
    Runtime { detail: String },
    Signature { detail: String },
    Resolve { detail: String },
    FetchArtifact { coord: String, detail: String },
    CasMaterialize { coord: String, detail: String },
    FrozenSignatureMismatch { on_disk: String, computed: String },
}

/// A failure, by contents.
pub enum PullFault {
    Project(project::ResolveFault),
    Config(Seq<char>),
    Io { path: Seq<char>, source: Seq<char> },
    PomParse(Seq<char>),
    PomResolve(Seq<char>),
    Lockfile(Seq<char>),
    CacheOpen { path: Seq<char>, detail: Seq<char> },
    IndexOpen { path: Seq<char>, detail: Seq<char> },
    Fetcher { detail: Seq<char> },
    Runtime { detail: Seq<char> },
    Signature { detail: Seq<char> },
    Resolve { detail: Seq<char> },
    FetchArtifact { coord: Seq<char>, detail: Seq<char> },
    CasMaterialize { coord: Seq<char>, detail: Seq<char> },
    FrozenSignatureMismatch { on_disk: Seq<char>, computed: Seq<char> },
}

impl View for PullError {
    type V = PullFault;

    open spec fn view(&self) -> PullFault {
        match self {
            PullError::Project(e) => PullFault::Project(e@),
            PullError::Config(d) => PullFault::Config(d@),
            PullError::Io { path, source } => PullFault::Io { path: path@, source: source@ },
            PullError::PomParse(d) => PullFault::PomParse(d@),
            PullError::PomResolve(d) => PullFault::PomResolve(d@),
            PullError::Lockfile(d) => PullFault::Lockfile(d@),
            PullError::CacheOpen { path, detail } => PullFault::CacheOpen {
                path: path@,
                detail: detail@,
            },
            PullError::IndexOpen { path, detail } => PullFault::IndexOpen {
                path: path@,
                detail: detail@,
            },
            PullError::Fetcher { detail } => PullFault::Fetcher { detail: detail@ },
            PullError::Runtime { detail } => PullFault::Runtime { detail: detail@ },
            PullError::Signature { detail } => PullFault::Signature { detail: detail@ },
            PullError::Resolve { detail } => PullFault::Resolve { detail: detail@ },
            PullError::FetchArtifact { coord, detail } => PullFault::FetchArtifact {
                coord: coord@,
                detail: detail@,
            },
            PullError::CasMaterialize { coord, detail } => PullFault::CasMaterialize {
                coord: coord@,
                detail: detail@,
            },
            PullError::FrozenSignatureMismatch { on_disk, computed } =>
                PullFault::FrozenSignatureMismatch { on_disk: on_disk@, computed: computed@ },
        }
    }
}

/// The message of a failure.
pub open spec fn fault_text(e: PullFault) -> Seq<char> {
    match e {
        PullFault::Project(e) => "project setup: "@ + project::fault_text(e),
        PullFault::Config(d) => "config load: "@ + d,
        PullFault::Io { path, source } => "I/O at "@ + text::quoted_path_text(path) + ": "@
            + source,
        PullFault::PomParse(d) => "pom parse: "@ + d,
        PullFault::PomResolve(d) => "pom resolve: "@ + d,
        PullFault::Lockfile(d) => "lockfile: "@ + d,
        PullFault::CacheOpen { path, detail } => "opening cache CAS at "@
            + text::quoted_path_text(path) + ": "@ + detail,
        PullFault::IndexOpen { path, detail } => "opening cache index at "@
            + text::quoted_path_text(path) + ": "@ + detail,
        PullFault::Fetcher { detail } => "building HTTP fetcher: "@ + detail,
        PullFault::Runtime { detail } => "async runtime: "@ + detail,
        PullFault::Signature { detail } => "computing project signature: "@ + detail,
        PullFault::Resolve { detail } => "resolving dependency graph: "@ + detail,
        PullFault::FetchArtifact { coord, detail } => "fetching artifact "@ + coord + ": "@
            + detail,
        PullFault::CasMaterialize { coord, detail } => "materializing "@ + coord
            + " into ~/.m2: "@ + detail,
        PullFault::FrozenSignatureMismatch { on_disk, computed } =>
            "lockfile is stale (signature mismatch): on-disk "@ + on_disk + ", computed "@
                + computed
                + ". Re-run without `--frozen` (or with `--update`) to refresh the lockfile."@,
    }
}

impl PullError {
    /// The message of this error.
    pub fn to_message(&self) -> (r: String)
        ensures
            r@ == fault_text(self@),
    {
        match self {
            PullError::Project(e) => text::two("project setup: ", e.to_message().as_str()),
            PullError::Config(d) => text::two("config load: ", d.as_str()),
            PullError::Io { path, source } => text::four(
                "I/O at ",
                text::quoted_path(path.as_str()).as_str(),
                ": ",
                source.as_str(),
            ),
            PullError::PomParse(d) => text::two("pom parse: ", d.as_str()),
            PullError::PomResolve(d) => text::two("pom resolve: ", d.as_str()),
            PullError::Lockfile(d) => text::two("lockfile: ", d.as_str()),
            PullError::CacheOpen { path, detail } => text::four(
                "opening cache CAS at ",
                text::quoted_path(path.as_str()).as_str(),
                ": ",
                detail.as_str(),
            ),
            PullError::IndexOpen { path, detail } => text::four(
                "opening cache index at ",
                text::quoted_path(path.as_str()).as_str(),
                ": ",
                detail.as_str(),
            ),
            PullError::Fetcher { detail } => text::two("building HTTP fetcher: ", detail.as_str()),
            PullError::Runtime { detail } => text::two("async runtime: ", detail.as_str()),
            PullError::Signature { detail } => text::two(
                "computing project signature: ",
                detail.as_str(),
            ),
            PullError::Resolve { detail } => text::two("resolving dependency graph: ", detail.as_str()),
            PullError::FetchArtifact { coord, detail } => text::four(
                "fetching artifact ",
                coord.as_str(),
                ": ",
                detail.as_str(),
            ),
            PullError::CasMaterialize { coord, detail } => text::four(
                "materializing ",
                coord.as_str(),
                " into ~/.m2: ",
                detail.as_str(),
            ),
            PullError::FrozenSignatureMismatch { on_disk, computed } => {
                let mut s = text::four(
                    "lockfile is stale (signature mismatch): on-disk ",
                    on_disk.as_str(),
                    ", computed ",
                    computed.as_str(),
                );
                s.append(
                    ". Re-run without `--frozen` (or with `--update`) to refresh the lockfile.",
                );
                s
            },
        }
    }

    /// The exit code of this error: a stale lockfile under `--frozen` has its own.
    pub fn exit_code(&self) -> (r: i32)
        ensures
            r == (if self@ is FrozenSignatureMismatch {
                2int
            } else {
                1
            }),
    {
        match self {
            PullError::FrozenSignatureMismatch { .. } => 2,
            _ => 1,
        }
    }
}

/// The line that tells people of a failure.
pub open spec fn failure_line(e: PullFault) -> Seq<char> {
    if e is FrozenSignatureMismatch {
        "error: barista pull --frozen: "@ + fault_text(e)
    } else {
        "error: barista pull failed: "@ + fault_text(e)
    }
}

/// What `run` shows of its outcome.
#[derive(Debug)]
pub enum Shown {
    Nothing,
    Report,
    /// A line for people.
    Line(String),
    /// An error document, with this message.
    Document(String),
}

/// What `pull` shows of its outcome, and its exit code. `--quiet` silences the summary for
/// people alone: programs always get their document.
pub fn run(outcome: &Result<PullReport, PullError>, output: OutputFormat, quiet: bool) -> (r: (
    Shown,
    i32,
))
    ensures
        match outcome {
            Ok(_) => r.1 == 0 && r.0 == (if output == OutputFormat::Human && quiet {
                Shown::Nothing
            } else {
                Shown::Report
            }),
            Err(e) => r.1 == (if e@ is FrozenSignatureMismatch {
                2int
            } else {
                1
            }) && match r.0 {
                Shown::Line(s) => output == OutputFormat::Human && s@ == failure_line(e@),
                Shown::Document(s) => output != OutputFormat::Human && s@ == fault_text(e@),
                _ => false,
            },
        },
{
    match outcome {
        Ok(_) => {
            if output == OutputFormat::Human && quiet {
                (Shown::Nothing, 0)
            } else {
                (Shown::Report, 0)
            }
        },
        Err(e) => {
            let code: i32 = e.exit_code();
            let message = e.to_message();
            if output == OutputFormat::Human {
                let head = match e {
                    PullError::FrozenSignatureMismatch { .. } => "error: barista pull --frozen: ",
                    _ => "error: barista pull failed: ",
                };
                (Shown::Line(text::two(head, message.as_str())), code)
            } else {
                (Shown::Document(message), code)
            }
        },
    }
}

// ---------------------------------------------------------------------------
// The project
// ---------------------------------------------------------------------------

/// What a POM says of its parent.
#[derive(Debug)]
pub struct PomParent {
    pub group_id: String,
    pub version: String,
}

/// What a POM says of itself.
#[derive(Debug)]
pub struct PomSummary {
    pub group_id: Option<String>,
    pub artifact_id: String,
    pub version: Option<String>,
    pub parent: Option<PomParent>,
}

/// The group of a project: its own, else its parent's.
pub open spec fn pom_group(p: PomSummary) -> Seq<char> {
    match p.group_id {
        Some(g) => g@,
        None => match p.parent {
            Some(q) => q.group_id@,
            None => "<no-group>"@,
        },
    }
}

/// The version of a project: its own, else its parent's.
pub open spec fn pom_version(p: PomSummary) -> Seq<char> {
    match p.version {
        Some(v) => v@,
        None => match p.parent {
            Some(q) => q.version@,
            None => "<no-version>"@,
        },
    }
}

/// The coordinate of a project.
pub open spec fn pom_coords(p: PomSummary) -> Seq<char> {
    pom_group(p) + ":"@ + p.artifact_id@ + ":"@ + pom_version(p)
}

/// The coordinate of a project.
pub fn pom_coords_for_summary(pom: &PomSummary) -> (r: String)
    ensures
        r@ == pom_coords(*pom),
{
    let mut s = match &pom.group_id {
        Some(g) => g.clone(),
        None => match &pom.parent {
            Some(q) => q.group_id.clone(),
            None => "<no-group>".to_owned(),
        },
    };
    s.append(":");
    s.append(pom.artifact_id.as_str());
    s.append(":");
    match &pom.version {
        Some(v) => s.append(v.as_str()),
        None => match &pom.parent {
            Some(q) => s.append(q.version.as_str()),
            None => s.append("<no-version>"),
        },
    }
    s
}

/// The bytes of a character in UTF-8.
pub open spec fn width(c: char) -> nat {
    if (c as u32) < 0x80 {
        1
    } else if (c as u32) < 0x800 {
        2
    } else if (c as u32) < 0x10000 {
        3
    } else {
        4
    }
}

/// The bytes of the first `k` characters.
pub open spec fn bytes_before(s: Seq<char>, k: nat) -> nat
    decreases k,
{
    if k == 0 {
        0
    } else {
        bytes_before(s, (k - 1) as nat) + width(s[k - 1])
    }
}

/// The first place from `k` on that at least `n` bytes stand before.
pub open spec fn cut_index(s: Seq<char>, k: nat, n: nat) -> nat
    decreases s.len() - k,
{
    if k >= s.len() || bytes_before(s, k) >= n {
        k
    } else {
        cut_index(s, k + 1, n)
    }
}

/// Whether a signature can be shortened: its twelfth byte ends a character.
pub open spec fn cuttable(s: Seq<char>) -> bool {
    bytes_before(s, s.len()) > 12 ==> bytes_before(s, cut_index(s, 0, 12)) == 12
}

/// A signature as summaries show it.
pub open spec fn short(s: Seq<char>) -> Seq<char> {
    if bytes_before(s, s.len()) > 12 {
        s.take(cut_index(s, 0, 12) as int) + "…"@
    } else {
        s
    }
}

/// More characters have more bytes.
proof fn bytes_grow(s: Seq<char>, k: nat, m: nat)
    requires
        k <= m,
    ensures
        bytes_before(s, m) >= bytes_before(s, k) + (m - k),
    decreases m,
{
    if k < m {
        bytes_grow(s, k, (m - 1) as nat);
    }
}

/// The place that a signature is cut at, and the bytes before it.
fn cut(chars: &Vec<char>) -> (r: (usize, usize))
    ensures
        r.0 <= chars@.len(),
        r.0 == cut_index(chars@, 0, 12),
        r.1 == bytes_before(chars@, r.0 as nat),
        r.0 < chars@.len() ==> r.1 >= 12,
        r.1 <= 15,
{
    let mut k: usize = 0;
    let mut b: usize = 0;
    while k < chars.len() && b < 12
        invariant
            k <= chars@.len(),
            b <= 15,
            b == bytes_before(chars@, k as nat),
            cut_index(chars@, 0, 12) == cut_index(chars@, k as nat, 12),
        decreases chars@.len() - k,
    {
        let c: u32 = chars[k] as u32;
        let w: usize = if c < 0x80 {
            1
        } else if c < 0x800 {
            2
        } else if c < 0x10000 {
            3
        } else {
            4
        };
        b = b + w;
        k = k + 1;
    }
    (k, b)
}

/// Whether a signature can be shortened.
pub fn can_shorten(sig: &str) -> (r: bool)
    ensures
        r == cuttable(sig@),
{
    let chars = text::chars_of(sig);
    let (k, b) = cut(&chars);
    proof {
        bytes_grow(chars@, k as nat, chars@.len());
    }
    b <= 12
}

/// A signature as summaries show it: at most twelve bytes of it.
pub fn short_sig(sig: &str) -> (r: String)
    requires
        cuttable(sig@),
    ensures
        r@ == short(sig@),
{
    let chars = text::chars_of(sig);
    let (k, b) = cut(&chars);
    proof {
        bytes_grow(chars@, k as nat, chars@.len());
    }
    if k < chars.len() {
        let mut s = text::text_of(&chars, 0, k);
        assert(s@ =~= chars@.take(k as int));
        s.append("…");
        s
    } else {
        assert(b <= 12);
        sig.to_owned()
    }
}

// ---------------------------------------------------------------------------
// What is resolved and fetched
// ---------------------------------------------------------------------------

/// A scope of the resolver.
#[derive(Debug, Clone, Copy, PartialEq, Eq, Structural)]
pub enum WalkScope {
    Compile,
    Provided,
    Runtime,
    Test,
    System,
    Import,
}

/// The name of a scope in the lockfile.
pub open spec fn scope_name(s: WalkScope) -> Seq<char> {
    match s {
        WalkScope::Compile => "compile"@,
        WalkScope::Provided => "provided"@,
        WalkScope::Runtime => "runtime"@,
        WalkScope::Test => "test"@,
        WalkScope::System => "system"@,
        WalkScope::Import => "import"@,
    }
}

/// The name of a scope in the lockfile.
pub fn scope_to_str(s: WalkScope) -> (r: &'static str)
    ensures
        r@ == scope_name(s),
{
    match s {
        WalkScope::Compile => "compile",
        WalkScope::Provided => "provided",
        WalkScope::Runtime => "runtime",
        WalkScope::Test => "test",
        WalkScope::System => "system",
        WalkScope::Import => "import",
    }
}

/// The one scope that the resolver keeps.
pub open spec fn walked_scope(scope: ScopeArg) -> WalkScope {
    match scope {
        ScopeArg::Compile => WalkScope::Compile,
        ScopeArg::Runtime => WalkScope::Runtime,
        ScopeArg::Test => WalkScope::Test,
        ScopeArg::Provided => WalkScope::Provided,
        ScopeArg::System => WalkScope::System,
    }
}

/// The one scope that the resolver keeps.
pub fn scope_filter(scope: ScopeArg) -> (r: WalkScope)
    ensures
        r == walked_scope(scope),
{
    match scope {
        ScopeArg::Compile => WalkScope::Compile,
        ScopeArg::Runtime => WalkScope::Runtime,
        ScopeArg::Test => WalkScope::Test,
        ScopeArg::Provided => WalkScope::Provided,
        ScopeArg::System => WalkScope::System,
    }
}

/// A group and an artifact.
#[derive(Debug)]
pub struct Coordinate {
    pub group: String,
    pub artifact: String,
}

/// A dependency that the resolver settled on.
#[derive(Debug)]
pub struct ResolvedDep {
    pub coords: Coordinate,
    pub version: String,
    pub scope: WalkScope,
    pub optional: bool,
    pub classifier: Option<String>,
    pub type_: String,
    /// The coordinates from the direct dependency down to this one's parent.
    pub winning_path: Vec<Coordinate>,
    pub depth: u32,
}

/// Where an artifact's bytes came from.
#[derive(Debug, Clone, Copy, PartialEq, Eq, Structural)]
pub enum FetchSource {
    /// They were in the cache.
    Cache,
    /// They were fetched.
    Remote,
}

/// What is known of an artifact whose bytes are in the cache.
#[derive(Debug)]
pub struct FetchedArtifact {
    /// The digest, in hexadecimal.
    pub sha256: String,
    pub sha1: Option<String>,
    pub size_bytes: u64,
    pub source_url: String,
    pub etag: Option<String>,
    pub last_modified: Option<String>,
    pub source: FetchSource,
}

/// `group:artifact`.
pub open spec fn ga(c: Coordinate) -> Seq<char> {
    c.group@ + ":"@ + c.artifact@
}

/// `group:artifact:version`.
pub open spec fn dep_coord(d: ResolvedDep) -> Seq<char> {
    ga(d.coords) + ":"@ + d.version@
}

/// The lockfile entry of a dependency.
pub open spec fn entry_of(d: ResolvedDep, f: FetchedArtifact) -> lockfile::EntryModel {
    lockfile::EntryModel {
        coords: ga(d.coords),
        version: d.version@,
        scope: scope_name(d.scope),
        optional: d.optional,
        sha256: f.sha256@,
        sha1: text::opt_text(f.sha1),
        size_bytes: f.size_bytes,
        source_url: f.source_url@,
        etag: text::opt_text(f.etag),
        last_modified: text::opt_text(f.last_modified),
        classifier: text::opt_text(d.classifier),
        type_: d.type_@,
        from_path: d.winning_path@.map_values(|c: Coordinate| ga(c)),
        depth: d.depth,
        snapshot_resolution: None,
        exclusions: Seq::empty(),
    }
}

/// `group:artifact`.
fn ga_of(c: &Coordinate) -> (r: String)
    ensures
        r@ == ga(*c),
{
    let mut s = c.group.clone();
    s.append(":");
    s.append(c.artifact.as_str());
    s
}

/// `group:artifact:version`.
fn dep_coord_of(d: &ResolvedDep) -> (r: String)
    ensures
        r@ == dep_coord(*d),
{
    let mut s = ga_of(&d.coords);
    s.append(":");
    s.append(d.version.as_str());
    s
}

/// The lockfile entry of a dependency.
pub fn build_lockfile_entry(dep: &ResolvedDep, fetched: &FetchedArtifact) -> (r: LockfileEntry)
    ensures
        r@ == entry_of(*dep, *fetched),
{
    let mut from_path: Vec<String> = Vec::new();
    let ghost path = dep.winning_path@.map_values(|c: Coordinate| ga(c));
    let mut k: usize = 0;
    while k < dep.winning_path.len()
        invariant
            k <= dep.winning_path@.len(),
            path == dep.winning_path@.map_values(|c: Coordinate| ga(c)),
            text::texts(from_path@) == path.take(k as int),
        decreases dep.winning_path@.len() - k,
    {
        let ghost before = text::texts(from_path@);
        from_path.push(ga_of(&dep.winning_path[k]));
        proof {
            assert(text::texts(from_path@) =~= before.push(path[k as int]));
            assert(path.take(k + 1) =~= path.take(k as int).push(path[k as int]));
        }
        k = k + 1;
    }
    let exclusions: Vec<String> = Vec::new();
    proof {
        assert(path.take(path.len() as int) =~= path);
        assert(text::texts(exclusions@) =~= Seq::empty());
    }
    LockfileEntry {
        coords: ga_of(&dep.coords),
        version: dep.version.clone(),
        scope: scope_to_str(dep.scope).to_owned(),
        optional: dep.optional,
        sha256: fetched.sha256.clone(),
        sha1: text::clone_opt(&fetched.sha1),
        size_bytes: fetched.size_bytes,
        source_url: fetched.source_url.clone(),
        etag: text::clone_opt(&fetched.etag),
        last_modified: text::clone_opt(&fetched.last_modified),
        classifier: text::clone_opt(&dep.classifier),
        type_: dep.type_.clone(),
        from_path,
        depth: dep.depth,
        snapshot_resolution: None,
        exclusions,
    }
}

/// The fingerprint of the Maven settings. No setting takes part in it: it is the digest of
/// no bytes.
pub fn settings_fingerprint() -> (r: String)
    ensures
        r@ == fingerprint(),
{
    let none: [u8; 0] = [];
    let ghost bytes = none@;
    let d = digest::sha256_of(&none);
    assert(bytes =~= Seq::empty());
    text::hex_of(&d)
}

/// The fingerprint of the Maven settings.
pub open spec fn fingerprint() -> Seq<char> {
    text::hex(digest::sha256(Seq::empty()))
}

// ---------------------------------------------------------------------------
// The network
// ---------------------------------------------------------------------------

/// How artifacts are fetched.
#[derive(Debug)]
pub struct FetchSettings {
    pub max_concurrent_connections: u32,
    pub request_timeout_secs: u64,
    pub http2_enabled: bool,
    pub user_agent: String,
    pub default_upstream: String,
}

/// How artifacts are fetched. Another upstream may be set in the environment; it is spoken to
/// without HTTP/2. There is at least one connection, and a request waits at least a second.
pub fn fetch_settings(
    upstream_var: Option<&str>,
    connections: u32,
    timeout_secs: u32,
    http2: bool,
) -> (r: FetchSettings)
    ensures
        r.max_concurrent_connections == (if connections == 0 {
            1
        } else {
            connections as int
        }),
        r.request_timeout_secs == (if timeout_secs == 0 {
            1
        } else {
            timeout_secs as int
        }),
        r.user_agent@ == "barista/"@ + wrapper::BARISTA_VERSION@,
        match upstream_var {
            Some(u) => if u@.len() > 0 {
                r.default_upstream@ == u@ && !r.http2_enabled
            } else {
                r.default_upstream@ == MAVEN_CENTRAL@ && r.http2_enabled == http2
            },
            None => r.default_upstream@ == MAVEN_CENTRAL@ && r.http2_enabled == http2,
        },
{
    let (default_upstream, http2_enabled) = match upstream_var {
        Some(u) => if u.unicode_len() > 0 {
            (u.to_owned(), false)
        } else {
            (MAVEN_CENTRAL.to_owned(), http2)
        },
        None => (MAVEN_CENTRAL.to_owned(), http2),
    };
    let max_concurrent_connections: u32 = if connections == 0 {
        1
    } else {
        connections
    };
    let request_timeout_secs: u64 = if timeout_secs == 0 {
        1
    } else {
        timeout_secs as u64
    };
    FetchSettings {
        max_concurrent_connections,
        request_timeout_secs,
        http2_enabled,
        user_agent: text::two("barista/", wrapper::BARISTA_VERSION),
        default_upstream,
    }
}

/// The warning about a journal whose end was cut off.
pub fn torn_journal_warning(cache_root: &str, offset: Option<u64>) -> (r: String)
    ensures
        r@ == "barista: warning: cache index journal at "@ + paths::joined_path(
            paths::joined_path(cache_root@, "index"@),
            "journal.log"@,
        ) + " had a torn tail; truncated at byte offset "@ + text::dec(
            (match offset {
                Some(n) => n as nat,
                None => 0,
            }),
        ) + " and continuing."@,
{
    let index = paths::join(cache_root, "index");
    let journal = paths::join(index.as_str(), "journal.log");
    let at: u64 = match offset {
        Some(n) => n,
        None => 0,
    };
    let mut s = "barista: warning: cache index journal at ".to_owned();
    s.append(journal.as_str());
    s.append(" had a torn tail; truncated at byte offset ");
    s.append(text::dec_u64(at).as_str());
    s.append(" and continuing.");
    s
}

// ---------------------------------------------------------------------------
// One artifact
// ---------------------------------------------------------------------------

/// What came back for a URL.
#[derive(Debug)]
pub enum Download {
    /// The bytes, by their number, and what the server said of them.
    Fresh { size_bytes: u64, etag: Option<String>, last_modified: Option<String> },
    NotModified,
}

/// What the index knows of an artifact.
#[derive(Debug)]
pub struct IndexEntry {
    pub hash: String,
    pub size_bytes: u64,
    pub sha1_hex: Option<String>,
    pub repository_url: String,
    pub etag: Option<String>,
    pub last_modified: Option<String>,
    pub atime_unix: u64,
    pub created_unix: u64,
}

/// How bytes were verified.
#[derive(Debug)]
pub enum Verification {
    Sha256Verified,
    Sha1Verified(String),
    Unverified,
}

/// Why an artifact could not be brought into the cache.
#[derive(Debug)]
pub enum ArtifactFetchError {
    Fetch(String),
    UnexpectedNotModified { url: String },
    Checksum { url: String, detail: String },
    Cas { detail: String },
    Index { detail: String },
}

/// The message of a fetch error.
pub open spec fn artifact_fault_text(e: ArtifactFetchError) -> Seq<char> {
    match e {
        ArtifactFetchError::Fetch(d) => "upstream HTTP: "@ + d@,
        ArtifactFetchError::UnexpectedNotModified { url } =>
            "upstream returned 304 Not Modified without conditional headers: "@ + url@,
        ArtifactFetchError::Checksum { url, detail } => "checksum verification failed at "@ + url@
            + ": "@ + detail@,
        ArtifactFetchError::Cas { detail } => "cas put: "@ + detail@,
        ArtifactFetchError::Index { detail } => "index put: "@ + detail@,
    }
}

impl ArtifactFetchError {
    /// The message of this error.
    pub fn to_message(&self) -> (r: String)
        ensures
            r@ == artifact_fault_text(*self),
    {
        match self {
            ArtifactFetchError::Fetch(d) => text::two("upstream HTTP: ", d.as_str()),
            ArtifactFetchError::UnexpectedNotModified { url } => text::two(
                "upstream returned 304 Not Modified without conditional headers: ",
                url.as_str(),
            ),
            ArtifactFetchError::Checksum { url, detail } => text::four(
                "checksum verification failed at ",
                url.as_str(),
                ": ",
                detail.as_str(),
            ),
            ArtifactFetchError::Cas { detail } => text::two("cas put: ", detail.as_str()),
            ArtifactFetchError::Index { detail } => text::two("index put: ", detail.as_str()),
        }
    }
}

/// How far the work on one artifact has come.
#[derive(Debug)]
pub enum FetchStage {
    /// The index is being asked.
    Lookup { url: String },
    /// The index knows the artifact; the cache is being asked for the bytes.
    Contains { url: String, entry: IndexEntry },
    /// The artifact and its sidecars are being downloaded.
    Download { url: String },
    /// The bytes are being verified.
    Verify { url: String, size_bytes: u64, etag: Option<String>, last_modified: Option<String> },
    /// The bytes are being stored.
    Store {
        url: String,
        size_bytes: u64,
        etag: Option<String>,
        last_modified: Option<String>,
        sha1: Option<String>,
    },
    /// The index is being told.
    Record { artifact: FetchedArtifact },
    /// Everything is settled.
    Over,
}

/// What came back.
#[derive(Debug)]
pub enum FetchEvent {
    Indexed(Option<IndexEntry>),
    Contained(bool),
    /// The artifact, and the texts of those sidecars that exist.
    Downloaded {
        artifact: Result<Download, String>,
        sha256_text: Option<String>,
        sha1_text: Option<String>,
    },
    Verified(Result<Verification, String>),
    /// The digest of the stored bytes, and the time.
    Stored(Result<String, String>, u64),
    Recorded(Result<(), String>),
}

/// What to do next.
#[derive(Debug)]
pub enum FetchAction {
    /// Ask the cache for the bytes of a digest.
    CheckCas(String),
    /// Download the artifact and both sidecars.
    Download,
    /// Verify the downloaded bytes against the sidecars.
    Verify { sha256_text: Option<String>, sha1_text: Option<String> },
    /// Store the downloaded bytes.
    Store,
    /// Record the artifact in the index.
    Record(IndexEntry),
    /// Nothing more.
    Done(Result<FetchedArtifact, ArtifactFetchError>),
}

/// Whether an event is the one that a stage waits for.
pub open spec fn fetch_event_fits(stage: FetchStage, event: FetchEvent) -> bool {
    match event {
        FetchEvent::Indexed(_) => stage is Lookup,
        FetchEvent::Contained(_) => stage is Contains,
        FetchEvent::Downloaded { .. } => stage is Download,
        FetchEvent::Verified(_) => stage is Verify,
        FetchEvent::Stored(_, _) => stage is Store,
        FetchEvent::Recorded(_) => stage is Record,
    }
}

/// The digest that a verification found, where it went by SHA-1.
pub open spec fn verified_sha1(v: Verification) -> Option<String> {
    match v {
        Verification::Sha1Verified(hex) => Some(hex),
        _ => None,
    }
}

/// Whether `e` records the artifact `f` at the time `now`.
pub open spec fn records(e: IndexEntry, f: FetchedArtifact, now: u64) -> bool {
    &&& e.hash@ == f.sha256@
    &&& e.size_bytes == f.size_bytes
    &&& text::opt_text(e.sha1_hex) == text::opt_text(f.sha1)
    &&& e.repository_url@ == f.source_url@
    &&& text::opt_text(e.etag) == text::opt_text(f.etag)
    &&& text::opt_text(e.last_modified) == text::opt_text(f.last_modified)
    &&& e.atime_unix == now
    &&& e.created_unix == now
}

/// Whether `next` and `action` are what is done at an event. An artifact that the index knows
/// and the cache holds is not downloaded. Anything else is downloaded, verified, stored and
/// recorded, in this order; the first failure ends the work.
pub open spec fn is_fetch_step(
    stage: FetchStage,
    event: FetchEvent,
    next: FetchStage,
    action: FetchAction,
) -> bool {
    match (stage, event) {
        (FetchStage::Lookup { url }, FetchEvent::Indexed(Some(e))) => next
            == (FetchStage::Contains { url, entry: e }) && (action matches FetchAction::CheckCas(h)
            && h@ == e.hash@),
        (FetchStage::Lookup { url }, FetchEvent::Indexed(None)) => next == (FetchStage::Download {
            url,
        }) && action is Download,
        (FetchStage::Contains { url, entry: e }, FetchEvent::Contained(true)) => next is Over
            && action == FetchAction::Done(
            Ok(
                (FetchedArtifact {
                    sha256: e.hash,
                    sha1: e.sha1_hex,
                    size_bytes: e.size_bytes,
                    source_url: e.repository_url,
                    etag: e.etag,
                    last_modified: e.last_modified,
                    source: FetchSource::Cache,
                }),
            ),
        ),
        (FetchStage::Contains { url, entry: e }, FetchEvent::Contained(false)) => next
            == (FetchStage::Download { url }) && action is Download,
        (
            FetchStage::Download { url },
            FetchEvent::Downloaded { artifact, sha256_text, sha1_text },
        ) => match artifact {
            Err(d) => next is Over && action == FetchAction::Done(
                Err(ArtifactFetchError::Fetch(d)),
            ),
            Ok(Download::NotModified) => next is Over && action == FetchAction::Done(
                Err((ArtifactFetchError::UnexpectedNotModified { url })),
            ),
            Ok(Download::Fresh { size_bytes, etag, last_modified }) => next
                == (FetchStage::Verify { url, size_bytes, etag, last_modified }) && action
                == (FetchAction::Verify { sha256_text, sha1_text }),
        },
        (
            FetchStage::Verify { url, size_bytes, etag, last_modified },
            FetchEvent::Verified(v),
        ) => match v {
            Err(detail) => next is Over && action == FetchAction::Done(
                Err((ArtifactFetchError::Checksum { url, detail })),
            ),
            Ok(v) => next == (FetchStage::Store {
                url,
                size_bytes,
                etag,
                last_modified,
                sha1: verified_sha1(v),
            }) && action is Store,
        },
        (
            FetchStage::Store { url, size_bytes, etag, last_modified, sha1 },
            FetchEvent::Stored(r, now),
        ) => match r {
            Err(detail) => next is Over && action == FetchAction::Done(
                Err((ArtifactFetchError::Cas { detail })),
            ),
            Ok(hash) => {
                let artifact = FetchedArtifact {
                    sha256: hash,
                    sha1,
                    size_bytes,
                    source_url: url,
                    etag,
                    last_modified,
                    source: FetchSource::Remote,
                };
                next == (FetchStage::Record { artifact }) && (action matches FetchAction::Record(e)
                    && records(e, artifact, now))
            },
        },
        (FetchStage::Record { artifact }, FetchEvent::Recorded(Err(detail))) => next is Over
            && action == FetchAction::Done(Err((ArtifactFetchError::Index { detail }))),
        (FetchStage::Record { artifact }, FetchEvent::Recorded(Ok(_))) => next is Over && action
            == FetchAction::Done(Ok(artifact)),
        _ => true,
    }
}

/// Brings one artifact into the cache: what is done at an event.
pub fn fetch_artifact_to_cache(stage: FetchStage, event: FetchEvent) -> (r: (
    FetchStage,
    FetchAction,
))
    requires
        fetch_event_fits(stage, event),
    ensures
        is_fetch_step(stage, event, r.0, r.1),
{
    match (stage, event) {
        (FetchStage::Lookup { url }, FetchEvent::Indexed(Some(e))) => {
            let hash = e.hash.clone();
            (FetchStage::Contains { url, entry: e }, FetchAction::CheckCas(hash))
        },
        (FetchStage::Lookup { url }, FetchEvent::Indexed(None)) => (
            FetchStage::Download { url },
            FetchAction::Download,
        ),
        (FetchStage::Contains { url, entry: e }, FetchEvent::Contained(present)) => {
            if present {
                let artifact = FetchedArtifact {
                    sha256: e.hash,
                    sha1: e.sha1_hex,
                    size_bytes: e.size_bytes,
                    source_url: e.repository_url,
                    etag: e.etag,
                    last_modified: e.last_modified,
                    source: FetchSource::Cache,
                };
                (FetchStage::Over, FetchAction::Done(Ok(artifact)))
            } else {
                (FetchStage::Download { url }, FetchAction::Download)
            }
        },
        (
            FetchStage::Download { url },
            FetchEvent::Downloaded { artifact, sha256_text, sha1_text },
        ) => match artifact {
            Err(d) => (FetchStage::Over, FetchAction::Done(Err(ArtifactFetchError::Fetch(d)))),
            Ok(Download::NotModified) => (
                FetchStage::Over,
                FetchAction::Done(Err(ArtifactFetchError::UnexpectedNotModified { url })),
            ),
            Ok(Download::Fresh { size_bytes, etag, last_modified }) => (
                FetchStage::Verify { url, size_bytes, etag, last_modified },
                FetchAction::Verify { sha256_text, sha1_text },
            ),
        },
        (
            FetchStage::Verify { url, size_bytes, etag, last_modified },
            FetchEvent::Verified(v),
        ) => match v {
            Err(detail) => (
                FetchStage::Over,
                FetchAction::Done(Err(ArtifactFetchError::Checksum { url, detail })),
            ),
            Ok(v) => {
                let sha1 = match v {
                    Verification::Sha1Verified(hex) => Some(hex),
                    _ => None,
                };
                (
                    FetchStage::Store { url, size_bytes, etag, last_modified, sha1 },
                    FetchAction::Store,
                )
            },
        },
        (
            FetchStage::Store { url, size_bytes, etag, last_modified, sha1 },
            FetchEvent::Stored(r, now),
        ) => match r {
            Err(detail) => (
                FetchStage::Over,
                FetchAction::Done(Err(ArtifactFetchError::Cas { detail })),
            ),
            Ok(hash) => {
                let entry = IndexEntry {
                    hash: hash.clone(),
                    size_bytes,
                    sha1_hex: text::clone_opt(&sha1),
                    repository_url: url.clone(),
                    etag: text::clone_opt(&etag),
                    last_modified: text::clone_opt(&last_modified),
                    atime_unix: now,
                    created_unix: now,
                };
                let artifact = FetchedArtifact {
                    sha256: hash,
                    sha1,
                    size_bytes,
                    source_url: url,
                    etag,
                    last_modified,
                    source: FetchSource::Remote,
                };
                (FetchStage::Record { artifact }, FetchAction::Record(entry))
            },
        },
        (FetchStage::Record { artifact }, FetchEvent::Recorded(r)) => match r {
            Err(detail) => (
                FetchStage::Over,
                FetchAction::Done(Err(ArtifactFetchError::Index { detail })),
            ),
            Ok(_) => (FetchStage::Over, FetchAction::Done(Ok(artifact))),
        },
        _ => vstd::pervasive::unreached(),
    }
}

/// An artifact is reported as fetched only after its bytes were downloaded, verified, stored
/// and recorded, and as cached only where the index knew it and the cache held it.
pub proof fn source_tells_the_way(
    stage: FetchStage,
    event: FetchEvent,
    next: FetchStage,
    action: FetchAction,
)
    requires
        fetch_event_fits(stage, event),
        is_fetch_step(stage, event, next, action),
        stage matches FetchStage::Record { artifact } ==> artifact.source == FetchSource::Remote,
    ensures
        action matches FetchAction::Done(Ok(f)) && f.source == FetchSource::Cache ==> stage
            is Contains && event == FetchEvent::Contained(true),
        action matches FetchAction::Done(Ok(f)) && f.source == FetchSource::Remote ==> stage
            is Record && event is Recorded,
        next matches FetchStage::Record { artifact } ==> artifact.source == FetchSource::Remote
            && stage is Store,
        next is Store ==> stage is Verify,
        next is Verify ==> stage is Download,
{
}

// ---------------------------------------------------------------------------
// The whole run
// ---------------------------------------------------------------------------

/// What a pull is asked for.
#[derive(Debug)]
pub struct PullInputs {
    pub project_root: String,
    /// The directory of the cache.
    pub cache_root: String,
    pub frozen: bool,
    pub update: bool,
    pub strict: bool,
    pub scope: ScopeArg,
    pub pom: PomSummary,
    /// The version that a new lockfile has.
    pub schema_version: u32,
    /// The time that a new lockfile has.
    pub generated_at: String,
}

/// What came back so far, in the order in which it is asked for.
#[derive(Debug)]
pub struct PullAnswers {
    /// Whether the parts of the cache could be opened, one after the other.
    pub opened: Vec<Result<(), String>>,
    /// Whether the POM and its parents could be resolved.
    pub resolved: Option<Result<(), String>>,
    /// The signature of the source tree.
    pub signature: Option<Result<String, String>>,
    /// The lockfile, where there is one.
    pub on_disk: Option<Result<Option<Lockfile>, String>>,
    /// The dependencies.
    pub walked: Option<Result<Vec<ResolvedDep>, String>>,
    /// The artifacts, one for each dependency.
    pub fetched: Vec<Result<FetchedArtifact, String>>,
    /// Whether they could be linked, one for each dependency.
    pub linked: Vec<Result<(), String>>,
    /// Whether the lockfile could be written.
    pub written: Option<Result<(), String>>,
}

/// The parts of the cache, in the order in which they are opened.
#[derive(Debug, Clone, Copy, PartialEq, Eq, Structural)]
pub enum Part {
    CacheDir,
    Cas,
    Index,
    Fetcher,
    Runtime,
}

/// What a pull needs next.
#[derive(Debug)]
pub enum Ask {
    Open(Part),
    ResolvePom,
    Sign,
    ReadLockfile(String),
    Walk(WalkScope),
    /// Bring the artifact of the dependency at `index` into the cache.
    Fetch { index: usize, coord: String },
    /// Link the artifact of the dependency at `index` into the local repository.
    Link { index: usize },
    WriteLockfile { path: String, lockfile: Lockfile },
}

/// What a pull does next.
#[derive(Debug)]
pub enum PullStep {
    Need(Ask),
    Done(Result<PullReport, PullError>),
}

/// A report, by contents.
pub struct ReportModel {
    pub project_root: Seq<char>,
    pub lockfile_status: LockfileStatus,
    pub entries: nat,
    pub fetched: nat,
    pub project_signature: Option<Seq<char>>,
    pub coords: Option<Seq<char>>,
    pub no_fetch: bool,
    pub strict: bool,
}

/// A need, by contents.
pub enum AskModel {
    Open(Part),
    ResolvePom,
    Sign,
    ReadLockfile(Seq<char>),
    Walk(WalkScope),
    Fetch { index: nat, coord: Seq<char> },
    Link { index: nat },
    WriteLockfile { path: Seq<char>, lockfile: lockfile::LockfileModel },
}

/// A step, by contents.
pub enum StepModel {
    Need(AskModel),
    Failed(PullFault),
    Finished(ReportModel),
}

/// The contents of a report.
pub open spec fn report_model(r: PullReport) -> ReportModel {
    ReportModel {
        project_root: r.project_root@,
        lockfile_status: r.lockfile_status,
        entries: r.entries as nat,
        fetched: r.fetched as nat,
        project_signature: text::opt_text(r.project_signature),
        coords: text::opt_text(r.coords),
        no_fetch: r.no_fetch,
        strict: r.strict,
    }
}

/// The contents of a step.
pub open spec fn step_model(s: PullStep) -> StepModel {
    match s {
        PullStep::Need(a) => StepModel::Need(
            match a {
                Ask::Open(p) => AskModel::Open(p),
                Ask::ResolvePom => AskModel::ResolvePom,
                Ask::Sign => AskModel::Sign,
                Ask::ReadLockfile(p) => AskModel::ReadLockfile(p@),
                Ask::Walk(s) => AskModel::Walk(s),
                Ask::Fetch { index, coord } => AskModel::Fetch {
                    index: index as nat,
                    coord: coord@,
                },
                Ask::Link { index } => AskModel::Link { index: index as nat },
                Ask::WriteLockfile { path, lockfile } => AskModel::WriteLockfile {
                    path: path@,
                    lockfile: lockfile@,
                },
            },
        ),
        PullStep::Done(Ok(r)) => StepModel::Finished(report_model(r)),
        PullStep::Done(Err(e)) => StepModel::Failed(e@),
    }
}

/// The part that is opened after `k` others.
pub open spec fn part(k: nat) -> Part {
    if k == 0 {
        Part::CacheDir
    } else if k == 1 {
        Part::Cas
    } else if k == 2 {
        Part::Index
    } else if k == 3 {
        Part::Fetcher
    } else {
        Part::Runtime
    }
}

/// The failure of a part that cannot be opened.
pub open spec fn part_fault(p: Part, cache_root: Seq<char>, detail: Seq<char>) -> PullFault {
    match p {
        Part::CacheDir => PullFault::Io { path: cache_root, source: detail },
        Part::Cas => PullFault::CacheOpen { path: cache_root, detail },
        Part::Index => PullFault::IndexOpen { path: cache_root, detail },
        Part::Fetcher => PullFault::Fetcher { detail },
        Part::Runtime => PullFault::Runtime {
            detail: "tokio current-thread runtime build: "@ + detail,
        },
    }
}

/// Why the parts from `k` on are not all open.
pub open spec fn opening(i: PullInputs, a: PullAnswers, k: nat) -> Option<StepModel>
    decreases 5 - k,
{
    if k >= 5 {
        None
    } else if k >= a.opened@.len() {
        Some(StepModel::Need(AskModel::Open(part(k))))
    } else {
        match a.opened@[k as int] {
            Err(d) => Some(StepModel::Failed(part_fault(part(k), i.cache_root@, d@))),
            Ok(_) => opening(i, a, k + 1),
        }
    }
}

/// Where a run stands before anything is fetched.
pub enum Standing {
    /// It waits, or it failed.
    Stopped(StepModel),
    /// The lockfile holds for this source tree.
    Locked(Lockfile),
    /// These dependencies have to be fetched.
    Walked(Vec<ResolvedDep>),
}

/// The path of the lockfile.
pub open spec fn lock_path(i: PullInputs) -> Seq<char> {
    paths::joined_path(i.project_root@, lockfile::LOCKFILE_LEAF@)
}

/// Where a run stands before anything is fetched. Under `--frozen` a lockfile of another
/// source tree is an error; without `--update` one of this source tree settles everything.
pub open spec fn standing(i: PullInputs, a: PullAnswers) -> Standing {
    match opening(i, a, 0) {
        Some(s) => Standing::Stopped(s),
        None => match a.resolved {
            None => Standing::Stopped(StepModel::Need(AskModel::ResolvePom)),
            Some(Err(d)) => Standing::Stopped(StepModel::Failed(PullFault::PomResolve(d@))),
            Some(Ok(_)) => match a.signature {
                None => Standing::Stopped(StepModel::Need(AskModel::Sign)),
                Some(Err(d)) => Standing::Stopped(
                    StepModel::Failed(PullFault::Signature { detail: d@ }),
                ),
                Some(Ok(sig)) => match a.on_disk {
                    None => Standing::Stopped(
                        StepModel::Need(AskModel::ReadLockfile(lock_path(i))),
                    ),
                    Some(Err(d)) => Standing::Stopped(StepModel::Failed(PullFault::Lockfile(d@))),
                    Some(Ok(on_disk)) => if stale(i, on_disk, sig@) {
                        Standing::Stopped(
                            StepModel::Failed(
                                PullFault::FrozenSignatureMismatch {
                                    on_disk: on_disk->0.meta.project_signature@,
                                    computed: sig@,
                                },
                            ),
                        )
                    } else if authoritative(i, on_disk, sig@) {
                        Standing::Locked(on_disk->0)
                    } else {
                        match a.walked {
                            None => Standing::Stopped(
                                StepModel::Need(AskModel::Walk(walked_scope(i.scope))),
                            ),
                            Some(Err(d)) => Standing::Stopped(
                                StepModel::Failed(PullFault::Resolve { detail: d@ }),
                            ),
                            Some(Ok(deps)) => Standing::Walked(deps),
                        }
                    },
                },
            },
        },
    }
}

/// Whether `--frozen` forbids to go on.
pub open spec fn stale(i: PullInputs, on_disk: Option<Lockfile>, sig: Seq<char>) -> bool {
    i.frozen && (on_disk matches Some(lf) && lf.meta.project_signature@ != sig)
}

/// Whether the lockfile settles everything.
pub open spec fn authoritative(i: PullInputs, on_disk: Option<Lockfile>, sig: Seq<char>) -> bool {
    !i.update && (on_disk matches Some(lf) && lf.meta.project_signature@ == sig)
}

/// The fetch that the dependencies from `k` on wait for, or the one that failed.
pub open spec fn fetching(deps: Seq<ResolvedDep>, a: PullAnswers, k: nat) -> Option<StepModel>
    decreases deps.len() - k,
{
    if k >= deps.len() {
        None
    } else if k >= a.fetched@.len() {
        Some(StepModel::Need(AskModel::Fetch { index: k, coord: dep_coord(deps[k as int]) }))
    } else {
        match a.fetched@[k as int] {
            Err(d) => Some(
                StepModel::Failed(
                    PullFault::FetchArtifact { coord: dep_coord(deps[k as int]), detail: d@ },
                ),
            ),
            Ok(_) => fetching(deps, a, k + 1),
        }
    }
}

/// The entries of the dependencies, all fetched.
pub open spec fn locked(deps: Seq<ResolvedDep>, a: PullAnswers) -> Seq<lockfile::EntryModel> {
    Seq::new(deps.len(), |k: int| entry_of(deps[k], a.fetched@[k]->Ok_0))
}

/// The link that the dependencies from `k` on wait for, or the one that failed.
pub open spec fn linking(deps: Seq<ResolvedDep>, a: PullAnswers, k: nat) -> Option<StepModel>
    decreases deps.len() - k,
{
    if k >= deps.len() {
        None
    } else if k >= a.linked@.len() {
        Some(StepModel::Need(AskModel::Link { index: k }))
    } else {
        match a.linked@[k as int] {
            Err(d) => Some(
                StepModel::Failed(
                    PullFault::CasMaterialize {
                        coord: lockfile::coord_text(locked(deps, a)[k as int]),
                        detail: d@,
                    },
                ),
            ),
            Ok(_) => linking(deps, a, k + 1),
        }
    }
}

/// How many of the first `k` artifacts were not in the cache.
pub open spec fn remote(a: PullAnswers, k: nat) -> nat
    decreases k,
{
    if k == 0 {
        0
    } else {
        remote(a, (k - 1) as nat) + (if a.fetched@[k - 1]->Ok_0.source == FetchSource::Remote {
            1nat
        } else {
            0
        })
    }
}

/// The lockfile of the dependencies.
pub open spec fn new_lockfile(i: PullInputs, deps: Seq<ResolvedDep>, a: PullAnswers) ->
    lockfile::LockfileModel {
    lockfile::LockfileModel {
        durable: lockfile::DurableModel {
            schema_version: i.schema_version,
            project_signature: a.signature->0->Ok_0@,
            settings_fingerprint: fingerprint(),
            reactor: Seq::empty(),
            entries: locked(deps, a),
            settings_snapshot: None,
        },
        generated_at: i.generated_at@,
    }
}

/// The report of a run.
pub open spec fn finished(
    i: PullInputs,
    a: PullAnswers,
    status: LockfileStatus,
    entries: nat,
    fetched: nat,
) -> StepModel {
    StepModel::Finished(
        ReportModel {
            project_root: i.project_root@,
            lockfile_status: status,
            entries,
            fetched,
            project_signature: Some(short(a.signature->0->Ok_0@)),
            coords: Some(pom_coords(i.pom)),
            no_fetch: false,
            strict: i.strict,
        },
    )
}

/// What a run does next, once its dependencies are known.
pub open spec fn after_walk(i: PullInputs, a: PullAnswers, deps: Seq<ResolvedDep>) -> StepModel {
    match fetching(deps, a, 0) {
        Some(s) => s,
        None => match linking(deps, a, 0) {
            Some(s) => s,
            None => match a.written {
                None => StepModel::Need(
                    AskModel::WriteLockfile {
                        path: lock_path(i),
                        lockfile: new_lockfile(i, deps, a),
                    },
                ),
                Some(Err(d)) => StepModel::Failed(PullFault::Lockfile(d@)),
                Some(Ok(_)) => finished(
                    i,
                    a,
                    LockfileStatus::Written,
                    deps.len(),
                    remote(a, deps.len()),
                ),
            },
        },
    }
}

/// What a run does next.
pub open spec fn full_fetch(i: PullInputs, a: PullAnswers) -> StepModel {
    match standing(i, a) {
        Standing::Stopped(s) => s,
        Standing::Locked(lf) => finished(i, a, LockfileStatus::Unchanged, lf.entries@.len(), 0),
        Standing::Walked(deps) => after_walk(i, a, deps@),
    }
}

/// Whether the signature can be shortened where the report shows it: once the lockfile
/// settles everything, or once a new one was written.
pub open spec fn signature_fits(i: PullInputs, a: PullAnswers) -> bool {
    full_fetch(i, a) is Finished ==> cuttable(a.signature->0->Ok_0@)
}

/// The part that is opened after `k` others.
fn nth_part(k: usize) -> (r: Part)
    ensures
        r == part(k as nat),
{
    if k == 0 {
        Part::CacheDir
    } else if k == 1 {
        Part::Cas
    } else if k == 2 {
        Part::Index
    } else if k == 3 {
        Part::Fetcher
    } else {
        Part::Runtime
    }
}

/// The first part that is not open, as a step.
fn open_parts(i: &PullInputs, a: &PullAnswers) -> (r: Option<PullStep>)
    ensures
        match r {
            Some(s) => opening(*i, *a, 0) == Some(step_model(s)),
            None => opening(*i, *a, 0) is None,
        },
{
    let mut k: usize = 0;
    while k < 5
        invariant
            k <= 5,
            opening(*i, *a, 0) == opening(*i, *a, k as nat),
        decreases 5 - k,
    {
        let p = nth_part(k);
        if k >= a.opened.len() {
            return Some(PullStep::Need(Ask::Open(p)));
        }
        match &a.opened[k] {
            Err(d) => {
                let root = i.cache_root.clone();
                let detail = d.clone();
                let e = match p {
                    Part::CacheDir => PullError::Io { path: root, source: detail },
                    Part::Cas => PullError::CacheOpen { path: root, detail },
                    Part::Index => PullError::IndexOpen { path: root, detail },
                    Part::Fetcher => PullError::Fetcher { detail },
                    Part::Runtime => PullError::Runtime {
                        detail: text::two("tokio current-thread runtime build: ", detail.as_str()),
                    },
                };
                return Some(PullStep::Done(Err(e)));
            },
            Ok(_) => {},
        }
        k = k + 1;
    }
    None
}

/// The first artifact that is missing, as a step.
fn fetch_all(deps: &Vec<ResolvedDep>, a: &PullAnswers) -> (r: Option<PullStep>)
    ensures
        match r {
            Some(s) => fetching(deps@, *a, 0) == Some(step_model(s)),
            None => fetching(deps@, *a, 0) is None && a.fetched@.len() >= deps@.len() && forall|
                k: int,
            |
                0 <= k < deps@.len() ==> (#[trigger] a.fetched@[k]) is Ok,
        },
{
    let mut k: usize = 0;
    while k < deps.len()
        invariant
            k <= deps@.len(),
            k <= a.fetched@.len(),
            fetching(deps@, *a, 0) == fetching(deps@, *a, k as nat),
            forall|j: int| 0 <= j < k ==> (#[trigger] a.fetched@[j]) is Ok,
        decreases deps@.len() - k,
    {
        let coord = dep_coord_of(&deps[k]);
        if k >= a.fetched.len() {
            return Some(PullStep::Need(Ask::Fetch { index: k, coord }));
        }
        match &a.fetched[k] {
            Err(d) => {
                return Some(
                    PullStep::Done(Err(PullError::FetchArtifact { coord, detail: d.clone() })),
                );
            },
            Ok(_) => {},
        }
        k = k + 1;
    }
    None
}

/// The entries of the dependencies, all fetched.
fn lock_all(deps: &Vec<ResolvedDep>, a: &PullAnswers) -> (r: (Vec<LockfileEntry>, usize))
    requires
        a.fetched@.len() >= deps@.len(),
        forall|k: int| 0 <= k < deps@.len() ==> (#[trigger] a.fetched@[k]) is Ok,
    ensures
        lockfile::entries_of(r.0@) == locked(deps@, *a),
        r.0@.len() == deps@.len(),
        r.1 == remote(*a, deps@.len()),
{
    let mut out: Vec<LockfileEntry> = Vec::new();
    let mut n: usize = 0;
    let mut k: usize = 0;
    let ghost all = locked(deps@, *a);
    while k < deps.len()
        invariant
            k <= deps@.len(),
            n <= k,
            n == remote(*a, k as nat),
            a.fetched@.len() >= deps@.len(),
            forall|j: int| 0 <= j < deps@.len() ==> (#[trigger] a.fetched@[j]) is Ok,
            all == locked(deps@, *a),
            out@.len() == k,
            lockfile::entries_of(out@) == all.take(k as int),
        decreases deps@.len() - k,
    {
        assert(a.fetched@[k as int] is Ok);
        match &a.fetched[k] {
            Ok(f) => {
                let ghost before = lockfile::entries_of(out@);
                let e = build_lockfile_entry(&deps[k], f);
                out.push(e);
                proof {
                    assert(lockfile::entries_of(out@) =~= before.push(all[k as int]));
                    assert(all.take(k + 1) =~= all.take(k as int).push(all[k as int]));
                }
                if f.source == FetchSource::Remote {
                    n = n + 1;
                }
            },
            Err(_) => {},
        }
        k = k + 1;
    }
    assert(all.take(all.len() as int) =~= all);
    (out, n)
}

/// The first artifact that is not linked, as a step.
fn link_all(deps: &Vec<ResolvedDep>, entries: &Vec<LockfileEntry>, a: &PullAnswers) -> (r: Option<
    PullStep,
>)
    requires
        lockfile::entries_of(entries@) == locked(deps@, *a),
        entries@.len() == deps@.len(),
    ensures
        match r {
            Some(s) => linking(deps@, *a, 0) == Some(step_model(s)),
            None => linking(deps@, *a, 0) is None,
        },
{
    let mut k: usize = 0;
    while k < deps.len()
        invariant
            k <= deps@.len(),
            entries@.len() == deps@.len(),
            lockfile::entries_of(entries@) == locked(deps@, *a),
            linking(deps@, *a, 0) == linking(deps@, *a, k as nat),
        decreases deps@.len() - k,
    {
        if k >= a.linked.len() {
            return Some(PullStep::Need(Ask::Link { index: k }));
        }
        match &a.linked[k] {
            Err(d) => {
                let coord = lockfile::format_coord(&entries[k]);
                assert(lockfile::entries_of(entries@)[k as int] == entries@[k as int]@);
                return Some(
                    PullStep::Done(Err(PullError::CasMaterialize { coord, detail: d.clone() })),
                );
            },
            Ok(_) => {},
        }
        k = k + 1;
    }
    None
}

/// The report of a run.
fn report_of(
    i: &PullInputs,
    sig: &str,
    lockfile_status: LockfileStatus,
    entries: usize,
    fetched: usize,
) -> (r: PullReport)
    requires
        cuttable(sig@),
    ensures
        report_model(r) == (ReportModel {
            project_root: i.project_root@,
            lockfile_status,
            entries: entries as nat,
            fetched: fetched as nat,
            project_signature: Some(short(sig@)),
            coords: Some(pom_coords(i.pom)),
            no_fetch: false,
            strict: i.strict,
        }),
{
    PullReport {
        project_root: i.project_root.clone(),
        lockfile_status,
        entries,
        fetched,
        project_signature: Some(short_sig(sig)),
        coords: Some(pom_coords_for_summary(&i.pom)),
        no_fetch: false,
        strict: i.strict,
    }
}

/// What a run does next: a step, or a report with these figures.
enum Next<'a> {
    Step(PullStep),
    Report { sig: &'a String, status: LockfileStatus, entries: usize, fetched: usize },
}

/// Whether `n` is the step `s`.
spec fn is_next(i: PullInputs, a: PullAnswers, n: Next, s: StepModel) -> bool {
    match n {
        Next::Step(x) => step_model(x) == s && !(s is Finished),
        Next::Report { sig, status, entries, fetched } => s == finished(
            i,
            a,
            status,
            entries as nat,
            fetched as nat,
        ) && a.signature == Some(Ok::<String, String>(*sig)),
    }
}

/// What a run does next, once its dependencies are known.
fn run_after_walk<'a>(
    i: &PullInputs,
    a: &'a PullAnswers,
    sig: &'a String,
    deps: &Vec<ResolvedDep>,
) -> (r: Next<'a>)
    requires
        a.signature == Some(Ok::<String, String>(*sig)),
    ensures
        is_next(*i, *a, r, after_walk(*i, *a, deps@)),
{
    proof {
        waiting_is_not_finished(deps@, *a, 0);
    }
    match fetch_all(deps, a) {
        Some(s) => return Next::Step(s),
        None => {},
    }
    let (entries, fetched) = lock_all(deps, a);
    match link_all(deps, &entries, a) {
        Some(s) => return Next::Step(s),
        None => {},
    }
    let count: usize = entries.len();
    let reactor: Vec<lockfile::LockedModule> = Vec::new();
    assert(lockfile::modules_of(reactor@) =~= Seq::empty());
    let new = Lockfile {
        meta: LockfileMeta {
            schema_version: i.schema_version,
            project_signature: sig.clone(),
            settings_fingerprint: settings_fingerprint(),
            generated_at: i.generated_at.clone(),
        },
        reactor,
        entries,
        settings_snapshot: None,
    };
    assert(new@ == new_lockfile(*i, deps@, *a));
    match &a.written {
        None => Next::Step(
            PullStep::Need(
                Ask::WriteLockfile {
                    path: paths::join(i.project_root.as_str(), lockfile::LOCKFILE_LEAF),
                    lockfile: new,
                },
            ),
        ),
        Some(Err(d)) => Next::Step(PullStep::Done(Err(PullError::Lockfile(d.clone())))),
        Some(Ok(_)) => Next::Report {
            sig,
            status: LockfileStatus::Written,
            entries: count,
            fetched,
        },
    }
}

/// Where a run stands before anything is fetched.
enum Stand<'a> {
    Stopped(PullStep),
    Locked { sig: &'a String, lockfile: &'a Lockfile },
    Walked { sig: &'a String, deps: &'a Vec<ResolvedDep> },
}

/// Where a run stands before anything is fetched.
fn stand<'a>(i: &PullInputs, a: &'a PullAnswers) -> (r: Stand<'a>)
    ensures
        match r {
            Stand::Stopped(s) => standing(*i, *a) == Standing::Stopped(step_model(s)),
            Stand::Locked { sig, lockfile } => standing(*i, *a) == Standing::Locked(*lockfile)
                && a.signature == Some(Ok::<String, String>(*sig)),
            Stand::Walked { sig, deps } => standing(*i, *a) == Standing::Walked(*deps)
                && a.signature == Some(Ok::<String, String>(*sig)),
        },
{
    match open_parts(i, a) {
        Some(s) => return Stand::Stopped(s),
        None => {},
    }
    match &a.resolved {
        None => return Stand::Stopped(PullStep::Need(Ask::ResolvePom)),
        Some(Err(d)) => return Stand::Stopped(
            PullStep::Done(Err(PullError::PomResolve(d.clone()))),
        ),
        Some(Ok(_)) => {},
    }
    let sig = match &a.signature {
        None => return Stand::Stopped(PullStep::Need(Ask::Sign)),
        Some(Err(d)) => return Stand::Stopped(
            PullStep::Done(Err(PullError::Signature { detail: d.clone() })),
        ),
        Some(Ok(sig)) => sig,
    };
    let on_disk = match &a.on_disk {
        None => return Stand::Stopped(
            PullStep::Need(
                Ask::ReadLockfile(paths::join(i.project_root.as_str(), lockfile::LOCKFILE_LEAF)),
            ),
        ),
        Some(Err(d)) => return Stand::Stopped(
            PullStep::Done(Err(PullError::Lockfile(d.clone()))),
        ),
        Some(Ok(on_disk)) => on_disk,
    };
    match on_disk {
        Some(lf) => {
            let same = text::same_text(lf.meta.project_signature.as_str(), sig.as_str());
            if i.frozen && !same {
                return Stand::Stopped(
                    PullStep::Done(
                        Err(
                            PullError::FrozenSignatureMismatch {
                                on_disk: lf.meta.project_signature.clone(),
                                computed: sig.clone(),
                            },
                        ),
                    ),
                );
            }
            if !i.update && same {
                return Stand::Locked { sig, lockfile: lf };
            }
        },
        None => {},
    }
    match &a.walked {
        None => Stand::Stopped(PullStep::Need(Ask::Walk(scope_filter(i.scope)))),
        Some(Err(d)) => Stand::Stopped(
            PullStep::Done(Err(PullError::Resolve { detail: d.clone() })),
        ),
        Some(Ok(deps)) => Stand::Walked { sig, deps },
    }
}

/// What a run does next.
fn next_of<'a>(i: &PullInputs, a: &'a PullAnswers) -> (r: Next<'a>)
    ensures
        is_next(*i, *a, r, full_fetch(*i, *a)),
{
    proof {
        opening_stops_short(*i, *a, 0);
    }
    match stand(i, a) {
        Stand::Stopped(s) => Next::Step(s),
        Stand::Locked { sig, lockfile } => Next::Report {
            sig,
            status: LockfileStatus::Unchanged,
            entries: lockfile.entries.len(),
            fetched: 0,
        },
        Stand::Walked { sig, deps } => run_after_walk(i, a, sig, deps),
    }
}

/// Whether the report can show the signature, where the run comes to a report.
pub fn can_report(i: &PullInputs, a: &PullAnswers) -> (r: bool)
    ensures
        r == signature_fits(*i, *a),
{
    match next_of(i, a) {
        Next::Step(_) => true,
        Next::Report { sig, .. } => can_shorten(sig.as_str()),
    }
}

/// What a run does next.
pub fn run_full_fetch(i: &PullInputs, a: &PullAnswers) -> (r: PullStep)
    requires
        signature_fits(*i, *a),
    ensures
        step_model(r) == full_fetch(*i, *a),
{
    match next_of(i, a) {
        Next::Step(s) => s,
        Next::Report { sig, status, entries, fetched } => PullStep::Done(
            Ok(report_of(i, sig.as_str(), status, entries, fetched)),
        ),
    }
}

// ---------------------------------------------------------------------------
// Progress
// ---------------------------------------------------------------------------

/// What a list of events tells; a flush tells nothing.
pub open spec fn told(es: Seq<ProgressEvent>) -> Seq<Option<ndjson::EventModel>> {
    es.map_values(|e: ProgressEvent| progress::event_model(e))
}

/// What every run tells first.
pub open spec fn opening_events(pom: PomSummary) -> Seq<Option<ndjson::EventModel>> {
    seq![
        Some(ndjson::started_event("pull"@)),
        Some(ndjson::resolving_event(Some(pom_coords(pom)), None)),
    ]
}

/// What is told of the first `k` entries of a lockfile, with a flush after every `pulse`.
pub open spec fn cached_events(es: Seq<LockfileEntry>, k: nat, pulse: nat) -> Seq<
    Option<ndjson::EventModel>,
>
    decreases k,
{
    if k == 0 {
        Seq::empty()
    } else {
        let told = cached_events(es, (k - 1) as nat, pulse).push(
            Some(ndjson::cached_event(es[k - 1].coords@)),
        );
        if pulse > 0 && k % pulse == 0 {
            told.push(None)
        } else {
            told
        }
    }
}

/// What is told of the dependency at `k`, once its artifact is in the cache.
pub open spec fn arrival(d: ResolvedDep, f: FetchedArtifact) -> ndjson::EventModel {
    if f.source == FetchSource::Remote {
        ndjson::fetched_event(dep_coord(d))
    } else {
        ndjson::cached_event(dep_coord(d))
    }
}

/// What is told of the dependencies from `k` on, up to the first that is not in the cache.
pub open spec fn fetch_events(deps: Seq<ResolvedDep>, a: PullAnswers, k: nat) -> Seq<
    Option<ndjson::EventModel>,
>
    decreases deps.len() - k,
{
    if k >= deps.len() {
        Seq::empty()
    } else {
        let start = Some(ndjson::fetching_event(dep_coord(deps[k as int]), None));
        if k < a.fetched@.len() && a.fetched@[k as int] is Ok {
            seq![start, Some(arrival(deps[k as int], a.fetched@[k as int]->Ok_0))] + fetch_events(
                deps,
                a,
                k + 1,
            )
        } else {
            seq![start]
        }
    }
}

/// What is told once everything is in place.
pub open spec fn closing_events(i: PullInputs, a: PullAnswers, deps: Seq<ResolvedDep>) -> Seq<
    Option<ndjson::EventModel>,
> {
    if fetching(deps, a, 0) is None && linking(deps, a, 0) is None {
        if a.written matches Some(Ok(_)) {
            seq![
                Some(ndjson::writing_lockfile_event()),
                Some(ndjson::completed_event("pull"@)),
            ]
        } else {
            seq![Some(ndjson::writing_lockfile_event())]
        }
    } else {
        Seq::empty()
    }
}

/// What a run has told.
pub open spec fn full_events(i: PullInputs, a: PullAnswers) -> Seq<Option<ndjson::EventModel>> {
    match standing(i, a) {
        Standing::Stopped(_) => opening_events(i.pom),
        Standing::Locked(lf) => opening_events(i.pom) + cached_events(
            lf.entries@,
            lf.entries@.len(),
            0,
        ) + seq![Some(ndjson::completed_event("pull"@))],
        Standing::Walked(deps) => opening_events(i.pom) + fetch_events(deps@, a, 0)
            + closing_events(i, a, deps@),
    }
}

/// Tells one more event.
fn tell(out: &mut Vec<ProgressEvent>, e: ProgressEvent)
    ensures
        told(final(out)@) == told(old(out)@).push(progress::event_model(e)),
{
    out.push(e);
    assert(told(out@) =~= told(old(out)@).push(progress::event_model(e)));
}

/// What a run tells before it looks at anything, whatever comes of it.
pub fn setup_events() -> (r: Vec<ProgressEvent>)
    ensures
        told(r@) == seq![Some(ndjson::started_event("pull"@))],
{
    let mut out: Vec<ProgressEvent> = Vec::new();
    tell(&mut out, ProgressEvent::Started("pull".to_owned()));
    assert(told(out@) =~= seq![Some(ndjson::started_event("pull"@))]);
    out
}

/// What every run tells first.
fn open_events(pom: &PomSummary) -> (r: Vec<ProgressEvent>)
    ensures
        told(r@) == opening_events(*pom),
{
    let mut out = setup_events();
    tell(&mut out, ProgressEvent::Resolving(Some(pom_coords_for_summary(pom))));
    assert(told(out@) =~= opening_events(*pom));
    out
}

/// Tells of every entry of a lockfile.
fn tell_cached(out: &mut Vec<ProgressEvent>, entries: &Vec<LockfileEntry>, pulse: usize)
    ensures
        told(final(out)@) == told(old(out)@) + cached_events(
            entries@,
            entries@.len(),
            pulse as nat,
        ),
{
    let ghost before = told(out@);
    let mut k: usize = 0;
    assert(before + cached_events(entries@, 0, pulse as nat) =~= before);
    while k < entries.len()
        invariant
            k <= entries@.len(),
            told(out@) == before + cached_events(entries@, k as nat, pulse as nat),
        decreases entries@.len() - k,
    {
        tell(out, ProgressEvent::Cached(entries[k].coords.clone()));
        k = k + 1;
        if pulse > 0 && k % pulse == 0 {
            tell(out, ProgressEvent::Flush);
        }
        assert(told(out@) =~= before + cached_events(entries@, k as nat, pulse as nat));
    }
}

/// Tells of the dependencies, up to the first that is not in the cache.
fn tell_fetches(out: &mut Vec<ProgressEvent>, deps: &Vec<ResolvedDep>, a: &PullAnswers)
    ensures
        told(final(out)@) == told(old(out)@) + fetch_events(deps@, *a, 0),
{
    let ghost whole = told(out@) + fetch_events(deps@, *a, 0);
    let mut k: usize = 0;
    while k < deps.len()
        invariant
            k <= deps@.len(),
            whole == told(out@) + fetch_events(deps@, *a, k as nat),
            whole == told(old(out)@) + fetch_events(deps@, *a, 0),
        decreases deps@.len() - k,
    {
        let ghost before = told(out@);
        let coord = dep_coord_of(&deps[k]);
        tell(out, ProgressEvent::Fetching(coord.clone()));
        if k >= a.fetched.len() {
            assert(told(out@) =~= whole);
            return;
        }
        match &a.fetched[k] {
            Ok(f) => {
                if f.source == FetchSource::Remote {
                    tell(out, ProgressEvent::Fetched(coord));
                } else {
                    tell(out, ProgressEvent::Cached(coord));
                }
            },
            Err(_) => {
                assert(told(out@) =~= whole);
                return;
            },
        }
        k = k + 1;
        assert(whole =~= told(out@) + fetch_events(deps@, *a, k as nat));
    }
    assert(told(out@) =~= whole);
}

/// What a run has told.
pub fn progress_of(i: &PullInputs, a: &PullAnswers) -> (r: Vec<ProgressEvent>)
    ensures
        told(r@) == full_events(*i, *a),
{
    let mut out = open_events(&i.pom);
    match stand(i, a) {
        Stand::Stopped(_) => {},
        Stand::Locked { lockfile, .. } => {
            tell_cached(&mut out, &lockfile.entries, 0);
            tell(&mut out, ProgressEvent::Completed("pull".to_owned()));
            assert(told(out@) =~= full_events(*i, *a));
        },
        Stand::Walked { deps, .. } => {
            tell_fetches(&mut out, deps, a);
            let ghost so_far = told(out@);
            match fetch_all(deps, a) {
                Some(_) => {},
                None => {
                    let (entries, _) = lock_all(deps, a);
                    match link_all(deps, &entries, a) {
                        Some(_) => {},
                        None => {
                            tell(&mut out, ProgressEvent::WritingLockfile);
                            match &a.written {
                                Some(Ok(_)) => {
                                    tell(&mut out, ProgressEvent::Completed("pull".to_owned()));
                                },
                                _ => {},
                            }
                        },
                    }
                },
            }
            assert(told(out@) =~= so_far + closing_events(*i, *a, deps@));
        },
    }
    out
}

// ---------------------------------------------------------------------------
// Without fetching
// ---------------------------------------------------------------------------

/// The report of `pull --no-fetch`.
pub open spec fn unfetched(
    root: Seq<char>,
    pom: PomSummary,
    strict: bool,
    on_disk: Option<Lockfile>,
) -> ReportModel {
    ReportModel {
        project_root: root,
        lockfile_status: if on_disk is Some {
            LockfileStatus::Unchanged
        } else {
            LockfileStatus::Absent
        },
        entries: match on_disk {
            Some(lf) => lf.entries@.len(),
            None => 0,
        },
        fetched: 0,
        project_signature: match on_disk {
            Some(lf) => Some(short(lf.meta.project_signature@)),
            None => None,
        },
        coords: Some(pom_coords(pom)),
        no_fetch: true,
        strict,
    }
}

/// How many events are told between two flushes.
pub const PULSE: usize = 64;

/// `pull --no-fetch`: reports the lockfile as it is, and what is told meanwhile. Only a
/// lockfile that cannot be read is an error.
pub fn run_no_fetch(
    root: &str,
    pom: &PomSummary,
    strict: bool,
    on_disk: &Result<Option<Lockfile>, String>,
) -> (r: (Vec<ProgressEvent>, Result<PullReport, PullError>))
    requires
        on_disk matches Ok(Some(lf)) ==> cuttable(lf.meta.project_signature@),
    ensures
        match on_disk {
            Ok(o) => (r.1 matches Ok(report) && report_model(report) == unfetched(
                root@,
                *pom,
                strict,
                *o,
            )) && told(r.0@) == opening_events(*pom) + (match o {
                Some(lf) => cached_events(lf.entries@, lf.entries@.len(), PULSE as nat),
                None => Seq::empty(),
            }) + seq![Some(ndjson::completed_event("pull"@))],
            Err(d) => (r.1 matches Err(e) && e@ == PullFault::Lockfile(d@)) && told(r.0@)
                == opening_events(*pom),
        },
{
    let mut out = open_events(pom);
    let coords = Some(pom_coords_for_summary(pom));
    let ghost head = told(out@);
    match on_disk {
        Err(d) => (out, Err(PullError::Lockfile(d.clone()))),
        Ok(o) => {
            let (lockfile_status, entries, project_signature) = match o {
                Some(lf) => {
                    tell_cached(&mut out, &lf.entries, PULSE);
                    (
                        LockfileStatus::Unchanged,
                        lf.entries.len(),
                        Some(short_sig(lf.meta.project_signature.as_str())),
                    )
                },
                None => {
                    assert(told(out@) =~= head + Seq::empty());
                    (LockfileStatus::Absent, 0, None)
                },
            };
            let ghost body = told(out@);
            tell(&mut out, ProgressEvent::Completed("pull".to_owned()));
            assert(told(out@) =~= body + seq![Some(ndjson::completed_event("pull"@))]);
            let report = PullReport {
                project_root: root.to_owned(),
                lockfile_status,
                entries,
                fetched: 0,
                project_signature,
                coords,
                no_fetch: true,
                strict,
            };
            (out, Ok(report))
        },
    }
}

// ---------------------------------------------------------------------------
// Setting up
// ---------------------------------------------------------------------------

/// What came back before the two ways part.
#[derive(Debug)]
pub struct SetupAnswers {
    pub root: Option<Result<ProjectRoot, ResolveError>>,
    pub config: Option<Result<(), String>>,
    pub pom_text: Option<Result<(), String>>,
    pub pom: Option<Result<(), String>>,
}

/// What is done before the two ways part.
#[derive(Debug)]
pub enum SetupStep {
    ResolveRoot,
    /// Load the configuration; the project's own file is given.
    LoadConfig(String),
    ReadPom(String),
    ParsePom,
    Failed(PullError),
    /// Report the lockfile as it is.
    NoFetch,
    /// Resolve and fetch.
    FullFetch,
}

/// Whether `s` is what is done next: the root, the configuration, the POM's text, the POM,
/// then the way that `no_fetch` chooses. The first failure ends the run.
pub open spec fn is_setup_step(
    named: Option<Seq<char>>,
    no_fetch: bool,
    a: SetupAnswers,
    s: SetupStep,
) -> bool {
    match a.root {
        None => s is ResolveRoot,
        Some(Err(e)) => s matches SetupStep::Failed(f) && f@ == PullFault::Project(e@),
        Some(Ok(root)) => match a.config {
            None => s matches SetupStep::LoadConfig(p) && p@ == project::config_path(
                named,
                root.root@,
            ),
            Some(Err(d)) => s matches SetupStep::Failed(f) && f@ == PullFault::Config(d@),
            Some(Ok(_)) => match a.pom_text {
                None => s matches SetupStep::ReadPom(p) && p@ == root.pom@,
                Some(Err(d)) => s matches SetupStep::Failed(f) && f@ == (PullFault::Io {
                    path: root.pom@,
                    source: d@,
                }),
                Some(Ok(_)) => match a.pom {
                    None => s is ParsePom,
                    Some(Err(d)) => s matches SetupStep::Failed(f) && f@ == PullFault::PomParse(
                        d@,
                    ),
                    Some(Ok(_)) => if no_fetch {
                        s is NoFetch
                    } else {
                        s is FullFetch
                    },
                },
            },
        },
    }
}

/// What is done before the two ways part; `--config` may have named the configuration.
pub fn run_inner(named: &Option<String>, no_fetch: bool, a: SetupAnswers) -> (r: SetupStep)
    ensures
        is_setup_step(text::opt_text(*named), no_fetch, a, r),
{
    let root = match a.root {
        None => return SetupStep::ResolveRoot,
        Some(Err(e)) => return SetupStep::Failed(PullError::Project(e)),
        Some(Ok(root)) => root,
    };
    match a.config {
        None => return SetupStep::LoadConfig(project::project_config(named, root.root.as_str())),
        Some(Err(d)) => return SetupStep::Failed(PullError::Config(d)),
        Some(Ok(_)) => {},
    }
    match a.pom_text {
        None => return SetupStep::ReadPom(root.pom),
        Some(Err(d)) => return SetupStep::Failed(PullError::Io { path: root.pom, source: d }),
        Some(Ok(_)) => {},
    }
    match a.pom {
        None => SetupStep::ParsePom,
        Some(Err(d)) => SetupStep::Failed(PullError::PomParse(d)),
        Some(Ok(_)) => if no_fetch {
            SetupStep::NoFetch
        } else {
            SetupStep::FullFetch
        },
    }
}

// ---------------------------------------------------------------------------
// Laws
// ---------------------------------------------------------------------------

/// Whether a step changes anything outside the cache's index of this source tree: it
/// resolves, fetches, links or writes.
pub open spec fn touches(s: StepModel) -> bool {
    match s {
        StepModel::Need(a) => a is Walk || a is Fetch || a is Link || a is WriteLockfile,
        _ => false,
    }
}

/// Under `--frozen`, a lockfile of another source tree is never touched: nothing is resolved,
/// fetched or written, and once the cache is open and the POM resolved, the run fails with
/// both signatures.
pub proof fn frozen_never_writes(i: PullInputs, a: PullAnswers, lf: Lockfile, sig: String)
    requires
        i.frozen,
        a.signature == Some(Ok::<String, String>(sig)),
        a.on_disk == Some(Ok::<Option<Lockfile>, String>(Some(lf))),
        lf.meta.project_signature@ != sig@,
    ensures
        !touches(full_fetch(i, a)),
        !(full_fetch(i, a) is Finished),
        opening(i, a, 0) is None && (a.resolved matches Some(Ok(_))) ==> full_fetch(i, a)
            == StepModel::Failed(
            (PullFault::FrozenSignatureMismatch {
                on_disk: lf.meta.project_signature@,
                computed: sig@,
            }),
        ),
{
    opening_stops_short(i, a, 0);
}

/// While the cache is being opened, nothing is touched and nothing finishes.
proof fn opening_stops_short(i: PullInputs, a: PullAnswers, k: nat)
    ensures
        opening(i, a, k) matches Some(s) ==> !touches(s) && !(s is Finished),
    decreases 5 - k,
{
    if k < 5 {
        opening_stops_short(i, a, k + 1);
    }
}

/// Without `--update`, a lockfile of this source tree settles everything: nothing is
/// resolved, fetched or written, and the report counts the lockfile's entries.
pub proof fn matching_lockfile_settles(i: PullInputs, a: PullAnswers, lf: Lockfile, sig: String)
    requires
        !i.update,
        a.signature == Some(Ok::<String, String>(sig)),
        a.on_disk == Some(Ok::<Option<Lockfile>, String>(Some(lf))),
        lf.meta.project_signature@ == sig@,
    ensures
        !touches(full_fetch(i, a)),
        full_fetch(i, a) matches StepModel::Finished(r) ==> r.lockfile_status
            == LockfileStatus::Unchanged && r.fetched == 0 && r.entries == lf.entries@.len(),
        opening(i, a, 0) is None && (a.resolved matches Some(Ok(_))) ==> full_fetch(i, a)
            is Finished,
{
    opening_stops_short(i, a, 0);
}

/// `--update` never takes the lockfile's word.
pub proof fn update_always_resolves(i: PullInputs, a: PullAnswers)
    requires
        i.update,
    ensures
        !(standing(i, a) is Locked),
{
}

/// The dependencies from `k` on, where one still waits or failed, touch nothing that is not
/// named, and never finish.
proof fn waiting_is_not_finished(deps: Seq<ResolvedDep>, a: PullAnswers, k: nat)
    ensures
        fetching(deps, a, k) matches Some(s) ==> !(s is Finished) && !(s matches StepModel::Need(
            AskModel::WriteLockfile { .. },
        )),
        linking(deps, a, k) matches Some(s) ==> !(s is Finished) && !(s matches StepModel::Need(
            AskModel::WriteLockfile { .. },
        )),
    decreases deps.len() - k,
{
    if k < deps.len() {
        waiting_is_not_finished(deps, a, k + 1);
    }
}

/// At most as many artifacts are fetched as there are dependencies.
proof fn remote_is_bounded(a: PullAnswers, k: nat)
    ensures
        remote(a, k) <= k,
    decreases k,
{
    if k > 0 {
        remote_is_bounded(a, (k - 1) as nat);
    }
}

/// A run that resolved its dependencies reports each of them once and at most all of them as
/// fetched; its lockfile, which it calls written, holds as many entries as it reports.
pub proof fn report_is_faithful(i: PullInputs, a: PullAnswers, deps: Vec<ResolvedDep>)
    requires
        standing(i, a) == Standing::Walked(deps),
    ensures
        full_fetch(i, a) matches StepModel::Finished(r) ==> {
            &&& r.entries == deps@.len()
            &&& r.fetched <= r.entries
            &&& r.lockfile_status == LockfileStatus::Written
            &&& r.entries == new_lockfile(i, deps@, a).durable.entries.len()
        },
{
    waiting_is_not_finished(deps@, a, 0);
    remote_is_bounded(a, deps@.len());
}

/// A report calls the lockfile unchanged exactly where it stood on disk for this source tree
/// and nothing was written, and written exactly where it was written.
pub proof fn status_tells_what_happened(i: PullInputs, a: PullAnswers)
    ensures
        full_fetch(i, a) matches StepModel::Finished(r) ==> {
            &&& r.lockfile_status == LockfileStatus::Unchanged <==> standing(i, a) is Locked
            &&& r.lockfile_status == LockfileStatus::Unchanged ==> (a.on_disk matches Some(
                Ok(Some(_)),
            ))
            &&& r.lockfile_status == LockfileStatus::Written <==> standing(i, a) is Walked && (
            a.written matches Some(Ok(_)))
            &&& r.lockfile_status == LockfileStatus::Unchanged || r.lockfile_status
                == LockfileStatus::Written
        },
        standing(i, a) is Locked ==> !touches(full_fetch(i, a)),
{
    opening_stops_short(i, a, 0);
    match standing(i, a) {
        Standing::Walked(deps) => {
            waiting_is_not_finished(deps@, a, 0);
        },
        _ => {},
    }
}

/// A second pull of the same source tree takes the lockfile that the first one wrote, and
/// reports the same entries without fetching.
pub proof fn second_pull_is_settled(
    i: PullInputs,
    a: PullAnswers,
    path: Seq<char>,
    new: lockfile::LockfileModel,
    j: PullInputs,
    b: PullAnswers,
    lf: Lockfile,
    sig: String,
)
    requires
        full_fetch(i, a) == StepModel::Need(
            (AskModel::WriteLockfile { path, lockfile: new }),
        ),
        a.signature == Some(Ok::<String, String>(sig)),
        lf@.durable == new.durable,
        !j.update,
        b.signature == Some(Ok::<String, String>(sig)),
        b.on_disk == Some(Ok::<Option<Lockfile>, String>(Some(lf))),
        opening(j, b, 0) is None,
        b.resolved matches Some(Ok(_)),
    ensures
        full_fetch(j, b) matches StepModel::Finished(r) && r.lockfile_status
            == LockfileStatus::Unchanged && r.fetched == 0 && r.entries
            == new.durable.entries.len(),
{
    opening_stops_short(i, a, 0);
    match standing(i, a) {
        Standing::Walked(deps) => {
            waiting_is_not_finished(deps@, a, 0);
            assert(lockfile::entries_of(lf.entries@).len() == lf.entries@.len());
        },
        _ => {},
    }
}

/// Whether `b` holds all of `a`'s answers.
pub open spec fn extends(a: PullAnswers, b: PullAnswers) -> bool {
    &&& a.opened@.is_prefix_of(b.opened@)
    &&& a.resolved is Some ==> b.resolved == a.resolved
    &&& a.signature is Some ==> b.signature == a.signature
    &&& a.on_disk is Some ==> b.on_disk == a.on_disk
    &&& a.walked is Some ==> b.walked == a.walked
    &&& a.fetched@.is_prefix_of(b.fetched@)
    &&& a.linked@.is_prefix_of(b.linked@)
    &&& a.written is Some ==> b.written == a.written
}

/// Opening goes on as before where answers are added.
proof fn opening_is_stable(i: PullInputs, a: PullAnswers, b: PullAnswers, k: nat)
    requires
        extends(a, b),
    ensures
        opening(i, a, k) is None ==> opening(i, b, k) is None,
        opening(i, a, k) matches Some(StepModel::Failed(f)) ==> opening(i, b, k)
            == opening(i, a, k),
    decreases 5 - k,
{
    if k < 5 {
        opening_is_stable(i, a, b, k + 1);
    }
}

/// What was told of fetches stays told, and what is settled stays settled.
proof fn fetches_are_stable(deps: Seq<ResolvedDep>, a: PullAnswers, b: PullAnswers, k: nat)
    requires
        extends(a, b),
    ensures
        fetch_events(deps, a, k).is_prefix_of(fetch_events(deps, b, k)),
        fetching(deps, a, k) is None ==> fetching(deps, b, k) is None && fetch_events(deps, b, k)
            == fetch_events(deps, a, k),
        linking(deps, a, k) is None ==> linking(deps, b, k) is None,
    decreases deps.len() - k,
{
    if k < deps.len() {
        fetches_are_stable(deps, a, b, k + 1);
        let start = Some(ndjson::fetching_event(dep_coord(deps[k as int]), None));
        if k < a.fetched@.len() && a.fetched@[k as int] is Ok {
            let head = seq![start, Some(arrival(deps[k as int], a.fetched@[k as int]->Ok_0))];
            let x = fetch_events(deps, a, k + 1);
            let y = fetch_events(deps, b, k + 1);
            assert(fetch_events(deps, a, k) == head + x);
            assert(fetch_events(deps, b, k) == head + y);
            assert(x =~= y.subrange(0, x.len() as int));
            assert((head + x) =~= (head + y).subrange(0, (head + x).len() as int));
        } else {
            assert(fetch_events(deps, b, k)[0] == start);
            assert(seq![start] =~= fetch_events(deps, b, k).subrange(0, 1));
        }
    }
}

/// What was told is never taken back: more answers only add events.
pub proof fn progress_only_grows(i: PullInputs, a: PullAnswers, b: PullAnswers)
    requires
        extends(a, b),
    ensures
        full_events(i, a).is_prefix_of(full_events(i, b)),
{
    opening_is_stable(i, a, b, 0);
    let head = opening_events(i.pom);
    let whole = full_events(i, b);
    match standing(i, a) {
        Standing::Stopped(_) => {
            assert(head =~= whole.subrange(0, head.len() as int));
        },
        Standing::Locked(lf) => {
            assert(standing(i, b) == standing(i, a));
            assert(whole =~= whole.subrange(0, whole.len() as int));
        },
        Standing::Walked(deps) => {
            assert(standing(i, b) == standing(i, a));
            fetches_are_stable(deps@, a, b, 0);
            let x = fetch_events(deps@, a, 0);
            let y = fetch_events(deps@, b, 0);
            let cx = closing_events(i, a, deps@);
            let cy = closing_events(i, b, deps@);
            assert(x =~= y.subrange(0, x.len() as int));
            if cx.len() > 0 {
                assert(x == y);
                assert(cx =~= cy.subrange(0, cx.len() as int));
            } else {
                assert(head + x + cx =~= head + x);
            }
            assert((head + x + cx) =~= whole.subrange(0, (head + x + cx).len() as int));
        },
    }
}

/// Whether a step of a pull that resolves asks for the scope `name` of the lockfile.
pub open spec fn walks(i: PullInputs, a: PullAnswers, name: Seq<char>) -> bool {
    full_fetch(i, a) matches StepModel::Need(AskModel::Walk(s)) ==> scope_name(s) == name
}

/// The scope that the resolver is asked for is the one that the user named: it has, in the
/// lockfile, the very name that `--scope` was given and that a pour selects by.
pub proof fn asked_scope_is_resolved(i: PullInputs, a: PullAnswers)
    ensures
        i.scope == ScopeArg::Compile ==> walks(i, a, "compile"@),
        i.scope == ScopeArg::Runtime ==> walks(i, a, "runtime"@),
        i.scope == ScopeArg::Test ==> walks(i, a, "test"@),
        i.scope == ScopeArg::Provided ==> walks(i, a, "provided"@),
        i.scope == ScopeArg::System ==> walks(i, a, "system"@),
        full_fetch(i, a) matches StepModel::Need(AskModel::Walk(s)) ==> scope_name(s)
            == pour::scope_name(i.scope),
{
    walk_is_for_the_scope(i, a);
}

proof fn walk_is_for_the_scope(i: PullInputs, a: PullAnswers)
    ensures
        full_fetch(i, a) matches StepModel::Need(AskModel::Walk(s)) ==> s == walked_scope(i.scope),
{
    opening_asks_for_parts(i, a, 0);
    match standing(i, a) {
        Standing::Walked(deps) => {
            waits_for_dependencies(deps@, a, 0);
        },
        _ => {},
    }
}

/// While the cache is being opened, only its parts are asked for.
proof fn opening_asks_for_parts(i: PullInputs, a: PullAnswers, k: nat)
    ensures
        opening(i, a, k) matches Some(StepModel::Need(n)) ==> n is Open,
    decreases 5 - k,
{
    if k < 5 {
        opening_asks_for_parts(i, a, k + 1);
    }
}

/// What is waited for among the dependencies from `k` on is the first without an answer; what
/// failed is the first with a bad one.
proof fn waits_for_dependencies(deps: Seq<ResolvedDep>, a: PullAnswers, k: nat)
    ensures
        fetching(deps, a, k) matches Some(StepModel::Need(n)) ==> k <= a.fetched@.len() ==> n
            == (AskModel::Fetch {
            index: a.fetched@.len(),
            coord: dep_coord(deps[a.fetched@.len() as int]),
        }) && a.fetched@.len() < deps.len(),
        fetching(deps, a, k) matches Some(StepModel::Need(n)) ==> n is Fetch,
        linking(deps, a, k) matches Some(StepModel::Need(n)) ==> k <= a.linked@.len() ==> n
            == (AskModel::Link { index: a.linked@.len() }) && a.linked@.len() < deps.len(),
        linking(deps, a, k) matches Some(StepModel::Need(n)) ==> n is Link,
        k <= deps.len() && fetching(deps, a, k) is None && k <= a.fetched@.len()
            ==> a.fetched@.len() >= deps.len() && forall|m: int|
            k <= m < deps.len() ==> (#[trigger] a.fetched@[m]) is Ok,
        k <= deps.len() && linking(deps, a, k) is None && k <= a.linked@.len()
            ==> a.linked@.len() >= deps.len() && forall|m: int|
            k <= m < deps.len() ==> (#[trigger] a.linked@[m]) is Ok,
        fetching(deps, a, k) matches Some(StepModel::Failed(f)) ==> exists|m: int|
            k <= m < deps.len() && m < a.fetched@.len() && (#[trigger] a.fetched@[m] matches Err(d)
                && f == (PullFault::FetchArtifact { coord: dep_coord(deps[m]), detail: d@ })),
        linking(deps, a, k) matches Some(StepModel::Failed(f)) ==> exists|m: int|
            k <= m < deps.len() && m < a.linked@.len() && (#[trigger] a.linked@[m] matches Err(d)
                && f == (PullFault::CasMaterialize {
                coord: lockfile::coord_text(locked(deps, a)[m]),
                detail: d@,
            })),
    decreases deps.len() - k,
{
    if k < deps.len() {
        waits_for_dependencies(deps, a, k + 1);
        if k < a.fetched@.len() {
            let x = a.fetched@[k as int];
        }
        if k < a.linked@.len() {
            let y = a.linked@[k as int];
        }
    }
}

/// An entry that a pull locks for a scope is one that a pour of that scope picks, and no other
/// scope picks it.
pub proof fn pulled_entry_is_poured(
    i: PullInputs,
    a: PullAnswers,
    d: ResolvedDep,
    f: FetchedArtifact,
    s: ScopeArg,
)
    requires
        full_fetch(i, a) == StepModel::Need(AskModel::Walk(d.scope)),
    ensures
        text::lowered(pour::scope_name(s)) == text::lowered(entry_of(d, f).scope) <==> s == i.scope,
{
    asked_scope_is_resolved(i, a);
    pour::names_are_told_apart(s, i.scope);
}

/// The scopes of the resolver have different names in the lockfile.
pub proof fn scope_names_differ(a: WalkScope, b: WalkScope)
    requires
        scope_name(a) == scope_name(b),
    ensures
        a == b,
        a == WalkScope::Compile ==> scope_name(a) == "compile"@,
        a == WalkScope::Provided ==> scope_name(a) == "provided"@,
        a == WalkScope::Runtime ==> scope_name(a) == "runtime"@,
        a == WalkScope::Test ==> scope_name(a) == "test"@,
        a == WalkScope::System ==> scope_name(a) == "system"@,
        a == WalkScope::Import ==> scope_name(a) == "import"@,
{
    reveal_strlit("compile");
    reveal_strlit("provided");
    reveal_strlit("runtime");
    reveal_strlit("test");
    reveal_strlit("system");
    reveal_strlit("import");
    assert("compile"@[0] == 'c' && "provided"@[0] == 'p' && "runtime"@[0] == 'r');
    assert("test"@[0] == 't' && "system"@[0] == 's' && "import"@[0] == 'i');
    assert(scope_name(a)[0] == scope_name(b)[0]);
}

/// Whether the lockfile entry `e` is that of the dependency `d` with the artifact `f`, field by
/// field.
pub open spec fn locks(e: lockfile::EntryModel, d: ResolvedDep, f: FetchedArtifact) -> bool {
    &&& e.coords == text::joined(seq![d.coords.group@, d.coords.artifact@], ":"@)
    &&& e.version == d.version@
    &&& d.scope == WalkScope::Compile <==> e.scope == "compile"@
    &&& d.scope == WalkScope::Provided <==> e.scope == "provided"@
    &&& d.scope == WalkScope::Runtime <==> e.scope == "runtime"@
    &&& d.scope == WalkScope::Test <==> e.scope == "test"@
    &&& d.scope == WalkScope::System <==> e.scope == "system"@
    &&& e.optional == d.optional
    &&& e.depth == d.depth
    &&& e.type_ == d.type_@
    &&& d.classifier matches Some(c) ==> e.classifier == Some(c@)
    &&& d.classifier is None ==> e.classifier is None
    &&& e.sha256 == f.sha256@
    &&& f.sha1 matches Some(x) ==> e.sha1 == Some(x@)
    &&& f.sha1 is None ==> e.sha1 is None
    &&& e.size_bytes == f.size_bytes
    &&& e.source_url == f.source_url@
    &&& f.etag matches Some(x) ==> e.etag == Some(x@)
    &&& f.etag is None ==> e.etag is None
    &&& f.last_modified matches Some(x) ==> e.last_modified == Some(x@)
    &&& f.last_modified is None ==> e.last_modified is None
    &&& e.from_path.len() == d.winning_path@.len()
    &&& forall|m: int|
        0 <= m < e.from_path.len() ==> #[trigger] e.from_path[m] == text::joined(
            seq![d.winning_path@[m].group@, d.winning_path@[m].artifact@],
            ":"@,
        )
}

/// `group:artifact` is the group and the artifact with a colon between them.
pub proof fn ga_has_both_parts(c: Coordinate)
    ensures
        ga(c) == text::joined(seq![c.group@, c.artifact@], ":"@),
{
    reveal_with_fuel(text::joined, 3);
    let two = seq![c.group@, c.artifact@];
    assert(two.drop_last() =~= seq![c.group@]);
}

/// The lockfile that a pull writes lies in the project's root, has the signature of the source
/// tree, and holds an entry for every dependency that was resolved, in their order, with what
/// the resolver said of it and what was fetched for it. It is written only after every artifact
/// was fetched and linked.
pub proof fn written_lockfile_is_faithful(
    i: PullInputs,
    a: PullAnswers,
    deps: Vec<ResolvedDep>,
    path: Seq<char>,
    new: lockfile::LockfileModel,
)
    requires
        a.walked == Some(Ok::<Vec<ResolvedDep>, String>(deps)),
        full_fetch(i, a) == StepModel::Need((AskModel::WriteLockfile { path, lockfile: new })),
    ensures
        path == paths::joined_path(i.project_root@, "barista.lock"@),
        a.signature matches Some(Ok(sig)) && new.durable.project_signature == sig@,
        new.durable.schema_version == i.schema_version,
        new.generated_at == i.generated_at@,
        new.durable.reactor.len() == 0,
        new.durable.entries.len() == deps@.len(),
        a.fetched@.len() >= deps@.len() && a.linked@.len() >= deps@.len(),
        forall|k: int|
            0 <= k < deps@.len() ==> a.fetched@[k] is Ok && locks(
                #[trigger] new.durable.entries[k],
                deps@[k],
                a.fetched@[k]->Ok_0,
            ),
        forall|k: int| 0 <= k < deps@.len() ==> (#[trigger] a.linked@[k]) is Ok,
{
    opening_asks_for_parts(i, a, 0);
    assert(standing(i, a) == Standing::Walked(deps));
    waits_for_dependencies(deps@, a, 0);
    assert forall|k: int| 0 <= k < deps@.len() implies a.fetched@[k] is Ok && locks(
        #[trigger] new.durable.entries[k],
        deps@[k],
        a.fetched@[k]->Ok_0,
    ) by {
        let d = deps@[k];
        assert(a.fetched@[k] is Ok);
        ga_has_both_parts(d.coords);
        let e = new.durable.entries[k];
        assert forall|m: int| 0 <= m < e.from_path.len() implies #[trigger] e.from_path[m]
            == text::joined(
            seq![d.winning_path@[m].group@, d.winning_path@[m].artifact@],
            ":"@,
        ) by {
            ga_has_both_parts(d.winning_path@[m]);
        }
        if e.scope == "compile"@ {
            scope_names_differ(d.scope, WalkScope::Compile);
        }
        if e.scope == "provided"@ {
            scope_names_differ(d.scope, WalkScope::Provided);
        }
        if e.scope == "runtime"@ {
            scope_names_differ(d.scope, WalkScope::Runtime);
        }
        if e.scope == "test"@ {
            scope_names_differ(d.scope, WalkScope::Test);
        }
        if e.scope == "system"@ {
            scope_names_differ(d.scope, WalkScope::System);
        }
    }
}

/// A pull fetches the dependencies one after the other, then links them one after the other:
/// what is asked for is the first that has no answer yet, by its coordinate. Nothing is linked
/// before everything was fetched.
pub proof fn dependencies_come_in_their_order(
    i: PullInputs,
    a: PullAnswers,
    deps: Vec<ResolvedDep>,
)
    requires
        standing(i, a) == Standing::Walked(deps),
    ensures
        full_fetch(i, a) matches StepModel::Need(AskModel::Fetch { index, coord }) ==> index
            == a.fetched@.len() && index < deps@.len() && coord == text::joined(
            seq![
                deps@[index as int].coords.group@,
                deps@[index as int].coords.artifact@,
                deps@[index as int].version@,
            ],
            ":"@,
        ),
        full_fetch(i, a) matches StepModel::Need(AskModel::Link { index }) ==> index
            == a.linked@.len() && index < deps@.len() && a.fetched@.len() >= deps@.len() && forall|
            k: int,
        |
            0 <= k < deps@.len() ==> (#[trigger] a.fetched@[k]) is Ok,
        !(full_fetch(i, a) matches StepModel::Need(AskModel::Walk(_))),
{
    waits_for_dependencies(deps@, a, 0);
    if let StepModel::Need(AskModel::Fetch { index, .. }) = full_fetch(i, a) {
        coordinate_has_three_parts(deps@[index as int]);
    }
}

proof fn coordinate_has_three_parts(d: ResolvedDep)
    ensures
        dep_coord(d) == text::joined(
            seq![d.coords.group@, d.coords.artifact@, d.version@],
            ":"@,
        ),
{
    reveal_with_fuel(text::joined, 4);
    ga_has_both_parts(d.coords);
    let three = seq![d.coords.group@, d.coords.artifact@, d.version@];
    assert(three.drop_last() =~= seq![d.coords.group@, d.coords.artifact@]);
}

/// A pull asks for one thing after the other: the parts of the cache in their order, the POM,
/// the signature, the lockfile of the project. What failed is reported as what it was.
pub proof fn questions_come_in_their_order(i: PullInputs, a: PullAnswers)
    ensures
        a.opened@.len() == 0 ==> full_fetch(i, a) == StepModel::Need(AskModel::Open(Part::CacheDir)),
        a.opened@.len() == 1 && a.opened@[0] is Ok ==> full_fetch(i, a) == StepModel::Need(
            AskModel::Open(Part::Cas),
        ),
        a.opened@.len() == 2 && a.opened@[0] is Ok && a.opened@[1] is Ok ==> full_fetch(i, a)
            == StepModel::Need(AskModel::Open(Part::Index)),
        a.opened@.len() == 3 && a.opened@[0] is Ok && a.opened@[1] is Ok && a.opened@[2] is Ok
            ==> full_fetch(i, a) == StepModel::Need(AskModel::Open(Part::Fetcher)),
        a.opened@.len() == 4 && a.opened@[0] is Ok && a.opened@[1] is Ok && a.opened@[2] is Ok
            && a.opened@[3] is Ok ==> full_fetch(i, a) == StepModel::Need(
            AskModel::Open(Part::Runtime),
        ),
        opening(i, a, 0) is None && a.resolved is None ==> full_fetch(i, a) == StepModel::Need(
            AskModel::ResolvePom,
        ),
        opening(i, a, 0) is None && (a.resolved matches Some(Ok(_))) && a.signature is None
            ==> full_fetch(i, a) == StepModel::Need(AskModel::Sign),
        opening(i, a, 0) is None && (a.resolved matches Some(Ok(_))) && (a.signature matches Some(
            Ok(_),
        )) && a.on_disk is None ==> full_fetch(i, a) == StepModel::Need(
            AskModel::ReadLockfile(paths::joined_path(i.project_root@, "barista.lock"@)),
        ),
        opening(i, a, 0) is None && (a.resolved matches Some(Ok(_))) && (a.signature matches Some(
            Ok(_),
        )) && (a.on_disk matches Some(Ok(None))) && a.walked is None ==> (full_fetch(i, a) matches
            StepModel::Need(AskModel::Walk(_))),
        opening(i, a, 0) is None && (a.resolved matches Some(Ok(_))) && (a.signature matches Some(
            Ok(_),
        )) && (a.on_disk matches Some(Ok(_))) && i.update && !i.frozen && a.walked is None ==> (
        full_fetch(i, a) matches StepModel::Need(AskModel::Walk(_))),
{
    reveal_with_fuel(opening, 6);
}

/// A finished run tells of its own project: its root, its coordinate, whether it was strict, and
/// the signature as it is shown; the fetched artifacts are those that were not in the cache.
pub proof fn report_is_about_the_project(i: PullInputs, a: PullAnswers)
    ensures
        full_fetch(i, a) matches StepModel::Finished(r) ==> {
            &&& r.project_root == i.project_root@
            &&& r.strict == i.strict
            &&& !r.no_fetch
            &&& r.coords == Some(pom_coords(i.pom))
            &&& a.signature matches Some(Ok(sig)) && r.project_signature == Some(short(sig@))
            &&& standing(i, a) matches Standing::Walked(deps) ==> r.fetched == remote(
                a,
                deps@.len(),
            )
        },
{
    opening_stops_short(i, a, 0);
    match standing(i, a) {
        Standing::Walked(deps) => {
            waiting_is_not_finished(deps@, a, 0);
        },
        _ => {},
    }
}

/// What was fetched is counted: one for every artifact that came from a remote, none for one
/// that the cache held.
pub proof fn remote_artifacts_are_counted(a: PullAnswers, k: nat)
    requires
        k < a.fetched@.len(),
    ensures
        a.fetched@[k as int]->Ok_0.source == FetchSource::Remote ==> remote(a, k + 1) == remote(a, k)
            + 1,
        a.fetched@[k as int]->Ok_0.source == FetchSource::Cache ==> remote(a, k + 1) == remote(a, k),
        remote(a, 0) == 0,
{
}

/// The coordinate of a project: its own group and version, else those of its parent.
pub proof fn project_has_its_coordinate(p: PomSummary)
    ensures
        p.group_id matches Some(g) ==> (p.version matches Some(v) ==> pom_coords(p) == text::joined(
            seq![g@, p.artifact_id@, v@],
            ":"@,
        )),
        p.group_id is None && p.version is None ==> (p.parent matches Some(q) ==> pom_coords(p)
            == text::joined(seq![q.group_id@, p.artifact_id@, q.version@], ":"@)),
        p.group_id matches Some(g) ==> p.version is None ==> (p.parent matches Some(q) ==> pom_coords(
            p,
        ) == text::joined(seq![g@, p.artifact_id@, q.version@], ":"@)),
        p.group_id is None ==> (p.version matches Some(v) ==> (p.parent matches Some(q)
            ==> pom_coords(p) == text::joined(seq![q.group_id@, p.artifact_id@, v@], ":"@))),
{
    reveal_with_fuel(text::joined, 4);
    let three = seq![pom_group(p), p.artifact_id@, pom_version(p)];
    assert(three.drop_last() =~= seq![pom_group(p), p.artifact_id@]);
    assert(three.drop_last().drop_last() =~= seq![pom_group(p)]);
    assert(text::joined(three, ":"@) == pom_coords(p));
}

/// A signature of ASCII characters is shown up to its twelfth, with an ellipsis where something
/// was left out.
pub proof fn shown_signature_is_short(s: Seq<char>)
    requires
        forall|k: int| 0 <= k < s.len() ==> (#[trigger] s[k]) as u32 <= 0x7f,
    ensures
        s.len() <= 12 ==> short(s) == s,
        s.len() > 12 ==> short(s) == s.take(12) + "…"@,
        cuttable(s),
{
    ascii_is_one_byte_each(s, s.len());
    if s.len() > 12 {
        cut_is_at(s, 0, 12);
    }
}

proof fn ascii_is_one_byte_each(s: Seq<char>, k: nat)
    requires
        k <= s.len(),
        forall|j: int| 0 <= j < s.len() ==> (#[trigger] s[j]) as u32 <= 0x7f,
    ensures
        bytes_before(s, k) == k,
    decreases k,
{
    if k > 0 {
        ascii_is_one_byte_each(s, (k - 1) as nat);
        let c = s[k - 1];
    }
}

proof fn cut_is_at(s: Seq<char>, k: nat, n: nat)
    requires
        k <= n <= s.len(),
        forall|j: int| 0 <= j < s.len() ==> (#[trigger] s[j]) as u32 <= 0x7f,
    ensures
        cut_index(s, k, n) == n,
        bytes_before(s, n) == n,
    decreases n - k,
{
    ascii_is_one_byte_each(s, k);
    ascii_is_one_byte_each(s, n);
    if k < n {
        cut_is_at(s, k + 1, n);
    }
}

/// Only a lockfile of this source tree is taken at its word, and never under `--update`; under
/// `--frozen` one of another source tree is refused, and a missing one is not.
pub proof fn lockfile_is_trusted_by_its_signature(
    i: PullInputs,
    lf: Lockfile,
    sig: Seq<char>,
)
    ensures
        authoritative(i, Some(lf), sig) <==> !i.update && lf.meta.project_signature@ == sig,
        stale(i, Some(lf), sig) <==> i.frozen && lf.meta.project_signature@ != sig,
        !authoritative(i, None, sig) && !stale(i, None, sig),
{
}

/// An artifact is brought into the cache as it came: what is reported and recorded of it is the
/// digest of what was stored, the size and headers of the download, and the address it came
/// from; what the cache held is reported as the index had it.
pub proof fn fetched_artifact_is_what_came(
    stage: FetchStage,
    event: FetchEvent,
    next: FetchStage,
    action: FetchAction,
)
    requires
        fetch_event_fits(stage, event),
        is_fetch_step(stage, event, next, action),
    ensures
        (stage, event) matches (
            FetchStage::Store { url, size_bytes, etag, last_modified, sha1 },
            FetchEvent::Stored(Ok(hash), now),
        ) ==> (next matches FetchStage::Record { artifact: f } && f.sha256 == hash && f.sha1 == sha1
            && f.size_bytes == size_bytes && f.source_url == url && f.etag == etag
            && f.last_modified == last_modified && f.source == FetchSource::Remote && (
        action matches FetchAction::Record(e) && e.hash@ == hash@ && e.size_bytes == size_bytes
            && e.repository_url@ == url@ && e.atime_unix == now && e.created_unix == now)),
        (stage, event) matches (
            FetchStage::Contains { entry: e, .. },
            FetchEvent::Contained(true),
        ) ==> (action matches FetchAction::Done(Ok(f)) && f.sha256 == e.hash && f.sha1 == e.sha1_hex
            && f.size_bytes == e.size_bytes && f.source_url == e.repository_url && f.etag == e.etag
            && f.last_modified == e.last_modified && f.source == FetchSource::Cache),
        (stage, event) matches (
            FetchStage::Lookup { .. },
            FetchEvent::Indexed(Some(e)),
        ) ==> (action matches FetchAction::CheckCas(h) && h@ == e.hash@),
        event == FetchEvent::Indexed(None) ==> action is Download,
        event == FetchEvent::Contained(false) ==> action is Download,
        event matches FetchEvent::Downloaded {
            artifact: Ok(Download::Fresh { .. }),
            sha256_text,
            sha1_text,
        } ==> action == (FetchAction::Verify { sha256_text, sha1_text }),
        event matches FetchEvent::Verified(Ok(v)) ==> action is Store && (v matches
            Verification::Sha1Verified(hex) ==> (next matches FetchStage::Store { sha1, .. } && sha1
            == Some(hex))) && (!(v is Sha1Verified) ==> (next matches FetchStage::Store { sha1, .. }
            && sha1 is None)),
        event matches FetchEvent::Verified(Err(_)) ==> (action matches FetchAction::Done(
            Err(ArtifactFetchError::Checksum { .. }),
        )),
        event matches FetchEvent::Downloaded { artifact: Err(_), .. } ==> (action matches
            FetchAction::Done(Err(ArtifactFetchError::Fetch(_)))),
        event matches FetchEvent::Downloaded { artifact: Ok(Download::NotModified), .. } ==> (
        action matches FetchAction::Done(Err(ArtifactFetchError::UnexpectedNotModified { .. }))),
        event matches FetchEvent::Stored(Err(_), _) ==> (action matches FetchAction::Done(
            Err(ArtifactFetchError::Cas { .. }),
        )),
        event matches FetchEvent::Recorded(Err(_)) ==> (action matches FetchAction::Done(
            Err(ArtifactFetchError::Index { .. }),
        )),
        (stage, event) matches (
            FetchStage::Record { artifact },
            FetchEvent::Recorded(Ok(_)),
        ) ==> action == FetchAction::Done(Ok::<FetchedArtifact, ArtifactFetchError>(artifact)),
{
}

/// A pull that succeeds exits with 0; a frozen lockfile that no longer fits exits with 2 and
/// everything else that fails with 1. Programs always get their document, and people an error
/// even when quiet.
pub proof fn pull_tells_how_it_went(
    outcome: &Result<PullReport, PullError>,
    output: OutputFormat,
    quiet: bool,
    r: (Shown, i32),
)
    requires
        call_ensures(run, (outcome, output, quiet), r),
    ensures
        *outcome is Ok <==> r.1 == 0,
        *outcome matches Err(e) ==> (r.1 == 2 <==> e@ is FrozenSignatureMismatch) && (r.1 == 1
            <==> e@ !is FrozenSignatureMismatch),
        *outcome is Ok ==> (r.0 is Nothing <==> output == OutputFormat::Human && quiet) && (
        r.0 is Report <==> !(output == OutputFormat::Human && quiet)),
        *outcome is Err ==> (r.0 is Line <==> output == OutputFormat::Human) && (r.0 is Document
            <==> output != OutputFormat::Human),
{
}

/// The resolver keeps the scope that was asked for.
pub proof fn kept_scope_is_the_asked_one(scope: ScopeArg, r: WalkScope)
    requires
        call_ensures(scope_filter, (scope,), r),
    ensures
        r is Compile <==> scope is Compile,
        r is Runtime <==> scope is Runtime,
        r is Test <==> scope is Test,
        r is Provided <==> scope is Provided,
        r is System <==> scope is System,
{
}

/// Fetches go to the upstream that is named, without HTTP/2, and otherwise to Maven Central as
/// configured; there is always a connection and always some time.
pub proof fn fetches_go_where_they_are_sent(
    upstream_var: Option<&str>,
    connections: u32,
    timeout_secs: u32,
    http2: bool,
    r: FetchSettings,
)
    requires
        call_ensures(fetch_settings, (upstream_var, connections, timeout_secs, http2), r),
    ensures
        r.max_concurrent_connections >= 1,
        connections >= 1 ==> r.max_concurrent_connections == connections,
        r.request_timeout_secs >= 1,
        timeout_secs >= 1 ==> r.request_timeout_secs == timeout_secs,
        r.user_agent@ == "barista/"@ + "0.1.0"@,
        upstream_var matches Some(u) ==> (u@.len() > 0 ==> r.default_upstream@ == u@
            && !r.http2_enabled),
        upstream_var is None ==> r.default_upstream@ == "https://repo.maven.apache.org/maven2"@
            && r.http2_enabled == http2,
{
}

/// What is said of a report or a step is said of what it holds.
pub proof fn models_are_of_their_reports(
    r: PullReport,
    e: PullError,
    p: Part,
    s: WalkScope,
    path: String,
    coord: String,
    index: usize,
    lf: Lockfile,
)
    ensures
        report_model(r).project_root == r.project_root@,
        report_model(r).lockfile_status == r.lockfile_status,
        report_model(r).entries == r.entries,
        report_model(r).fetched == r.fetched,
        report_model(r).project_signature == text::opt_text(r.project_signature),
        report_model(r).coords == text::opt_text(r.coords),
        report_model(r).no_fetch == r.no_fetch,
        report_model(r).strict == r.strict,
        step_model(PullStep::Done(Ok(r))) == StepModel::Finished(report_model(r)),
        step_model(PullStep::Done(Err(e))) == StepModel::Failed(e@),
        step_model(PullStep::Need(Ask::Open(p))) == StepModel::Need(AskModel::Open(p)),
        step_model(PullStep::Need(Ask::ResolvePom)) == StepModel::Need(AskModel::ResolvePom),
        step_model(PullStep::Need(Ask::Sign)) == StepModel::Need(AskModel::Sign),
        step_model(PullStep::Need(Ask::ReadLockfile(path))) == StepModel::Need(
            AskModel::ReadLockfile(path@),
        ),
        step_model(PullStep::Need(Ask::Walk(s))) == StepModel::Need(AskModel::Walk(s)),
        step_model(PullStep::Need(Ask::Fetch { index, coord })) == StepModel::Need(
            AskModel::Fetch { index: index as nat, coord: coord@ },
        ),
        step_model(PullStep::Need(Ask::Link { index })) == StepModel::Need(
            AskModel::Link { index: index as nat },
        ),
        step_model(PullStep::Need(Ask::WriteLockfile { path, lockfile: lf })) == StepModel::Need(
            AskModel::WriteLockfile { path: path@, lockfile: lf@ },
        ),
        e is Project <==> e@ is Project,
        e is Config <==> e@ is Config,
        e is PomParse <==> e@ is PomParse,
        e is PomResolve <==> e@ is PomResolve,
        e is Lockfile <==> e@ is Lockfile,
        e is CacheOpen <==> e@ is CacheOpen,
        e is IndexOpen <==> e@ is IndexOpen,
        e is Fetcher <==> e@ is Fetcher,
        e is Runtime <==> e@ is Runtime,
        e is Signature <==> e@ is Signature,
        e is Resolve <==> e@ is Resolve,
        e is FetchArtifact <==> e@ is FetchArtifact,
        e is CasMaterialize <==> e@ is CasMaterialize,
        e is FrozenSignatureMismatch <==> e@ is FrozenSignatureMismatch,
        e matches PullError::FetchArtifact { coord: c, detail } ==> (
        e@ matches PullFault::FetchArtifact { coord: d, detail: t } && d == c@ && t == detail@),
{
}

/// An error says what was being done, to which artifact or file, and ends with what went
/// wrong.
pub proof fn errors_tell_what_went_wrong(e: PullFault)
    ensures
        e matches PullFault::Config(d) ==> text::is_beginning_and_end(
            fault_text(e),
            "config load: "@,
            d,
        ),
        e matches PullFault::PomParse(d) ==> text::is_beginning_and_end(
            fault_text(e),
            "pom parse: "@,
            d,
        ),
        e matches PullFault::PomResolve(d) ==> text::is_beginning_and_end(
            fault_text(e),
            "pom resolve: "@,
            d,
        ),
        e matches PullFault::Lockfile(d) ==> text::is_beginning_and_end(
            fault_text(e),
            "lockfile: "@,
            d,
        ),
        e matches PullFault::Fetcher { detail } ==> text::is_beginning_and_end(
            fault_text(e),
            "building HTTP fetcher: "@,
            detail,
        ),
        e matches PullFault::Runtime { detail } ==> text::is_beginning_and_end(
            fault_text(e),
            "async runtime: "@,
            detail,
        ),
        e matches PullFault::Signature { detail } ==> text::is_beginning_and_end(
            fault_text(e),
            "computing project signature: "@,
            detail,
        ),
        e matches PullFault::Resolve { detail } ==> text::is_beginning_and_end(
            fault_text(e),
            "resolving dependency graph: "@,
            detail,
        ),
        e matches PullFault::FetchArtifact { coord, detail } ==> text::is_beginning_and_end(
            fault_text(e),
            "fetching artifact "@ + coord + ": "@,
            detail,
        ),
        e matches PullFault::CasMaterialize { coord, detail } ==> text::is_beginning_and_end(
            fault_text(e),
            "materializing "@ + coord + " into ~/.m2: "@,
            detail,
        ),
        e matches PullFault::CacheOpen { path, detail } ==> text::is_beginning_and_end(
            fault_text(e),
            "opening cache CAS at "@ + text::quoted_path_text(path) + ": "@,
            detail,
        ),
        e matches PullFault::IndexOpen { path, detail } ==> text::is_beginning_and_end(
            fault_text(e),
            "opening cache index at "@ + text::quoted_path_text(path) + ": "@,
            detail,
        ),
        e matches PullFault::Io { path, source } ==> text::is_beginning_and_end(
            fault_text(e),
            "I/O at "@ + text::quoted_path_text(path) + ": "@,
            source,
        ),
        e matches PullFault::FrozenSignatureMismatch { on_disk, computed } ==> (
        "lockfile is stale (signature mismatch): on-disk "@ + on_disk + ", computed "@
            + computed).is_prefix_of(fault_text(e)),
        e is FrozenSignatureMismatch ==> text::is_beginning_and_end(
            failure_line(e),
            "error: barista pull --frozen: "@,
            fault_text(e),
        ),
        e !is FrozenSignatureMismatch ==> text::is_beginning_and_end(
            failure_line(e),
            "error: barista pull failed: "@,
            fault_text(e),
        ),
{
    match e {
        PullFault::Config(d) => text::two_parts_are_beginning_and_end("config load: "@, d),
        PullFault::PomParse(d) => text::two_parts_are_beginning_and_end("pom parse: "@, d),
        PullFault::PomResolve(d) => text::two_parts_are_beginning_and_end("pom resolve: "@, d),
        PullFault::Lockfile(d) => text::two_parts_are_beginning_and_end("lockfile: "@, d),
        PullFault::Fetcher { detail } => text::two_parts_are_beginning_and_end(
            "building HTTP fetcher: "@,
            detail,
        ),
        PullFault::Runtime { detail } => text::two_parts_are_beginning_and_end(
            "async runtime: "@,
            detail,
        ),
        PullFault::Signature { detail } => text::two_parts_are_beginning_and_end(
            "computing project signature: "@,
            detail,
        ),
        PullFault::Resolve { detail } => text::two_parts_are_beginning_and_end(
            "resolving dependency graph: "@,
            detail,
        ),
        PullFault::FetchArtifact { coord, detail } => text::two_parts_are_beginning_and_end(
            "fetching artifact "@ + coord + ": "@,
            detail,
        ),
        PullFault::CasMaterialize { coord, detail } => text::two_parts_are_beginning_and_end(
            "materializing "@ + coord + " into ~/.m2: "@,
            detail,
        ),
        PullFault::CacheOpen { path, detail } => text::two_parts_are_beginning_and_end(
            "opening cache CAS at "@ + text::quoted_path_text(path) + ": "@,
            detail,
        ),
        PullFault::IndexOpen { path, detail } => text::two_parts_are_beginning_and_end(
            "opening cache index at "@ + text::quoted_path_text(path) + ": "@,
            detail,
        ),
        PullFault::Io { path, source } => text::two_parts_are_beginning_and_end(
            "I/O at "@ + text::quoted_path_text(path) + ": "@,
            source,
        ),
        _ => {},
    }
    text::two_parts_are_beginning_and_end("error: barista pull --frozen: "@, fault_text(e));
    text::two_parts_are_beginning_and_end("error: barista pull failed: "@, fault_text(e));
}

/// An artifact that could not be had is told with its address and with what went wrong.
pub proof fn failed_fetches_tell_why(e: ArtifactFetchError)
    ensures
        e matches ArtifactFetchError::Fetch(d) ==> text::is_beginning_and_end(
            artifact_fault_text(e),
            "upstream HTTP: "@,
            d@,
        ),
        e matches ArtifactFetchError::UnexpectedNotModified { url } ==> text::is_beginning_and_end(
            artifact_fault_text(e),
            "upstream returned 304 Not Modified without conditional headers: "@,
            url@,
        ),
        e matches ArtifactFetchError::Checksum { url, detail } ==> text::is_beginning_and_end(
            artifact_fault_text(e),
            "checksum verification failed at "@ + url@ + ": "@,
            detail@,
        ),
        e matches ArtifactFetchError::Cas { detail } ==> text::is_beginning_and_end(
            artifact_fault_text(e),
            "cas put: "@,
            detail@,
        ),
        e matches ArtifactFetchError::Index { detail } ==> text::is_beginning_and_end(
            artifact_fault_text(e),
            "index put: "@,
            detail@,
        ),
{
    match e {
        ArtifactFetchError::Fetch(d) => text::two_parts_are_beginning_and_end(
            "upstream HTTP: "@,
            d@,
        ),
        ArtifactFetchError::UnexpectedNotModified { url } => text::two_parts_are_beginning_and_end(
            "upstream returned 304 Not Modified without conditional headers: "@,
            url@,
        ),
        ArtifactFetchError::Checksum { url, detail } => text::two_parts_are_beginning_and_end(
            "checksum verification failed at "@ + url@ + ": "@,
            detail@,
        ),
        ArtifactFetchError::Cas { detail } => text::two_parts_are_beginning_and_end(
            "cas put: "@,
            detail@,
        ),
        ArtifactFetchError::Index { detail } => text::two_parts_are_beginning_and_end(
            "index put: "@,
            detail@,
        ),
    }
}

/// A project that says neither itself nor through a parent which group or version it is of says
/// so in its coordinate.
pub proof fn missing_parts_are_told(p: PomSummary)
    requires
        p.parent is None,
    ensures
        p.group_id is None ==> pom_group(p) == "<no-group>"@,
        p.version is None ==> pom_version(p) == "<no-version>"@,
{
}

/// Characters count for as many bytes as UTF-8 gives them.
pub proof fn characters_count_their_bytes(c: char)
    ensures
        (c as u32) <= 0x7f ==> width(c) == 1,
        0x80 <= (c as u32) <= 0x7ff ==> width(c) == 2,
        0x800 <= (c as u32) <= 0xffff ==> width(c) == 3,
        (c as u32) >= 0x10000 ==> width(c) == 4,
{
}

} // verus!
