//! The lockfile as the commands read and write it.

use vstd::prelude::*;
use vstd::string::*;

use crate::output::report::{GrindTreeReport, ReactorModule, TreeNode};
use crate::text;

verus! {

/// The leaf name of a lockfile.
pub const LOCKFILE_LEAF: &'static str = "barista.lock";

/// The head of a lockfile.
#[derive(Debug)]
pub struct LockfileMeta {
    pub schema_version: u32,
    /// The signature of the source tree that the entries were resolved for.
    pub project_signature: String,
    pub settings_fingerprint: String,
    /// When the lockfile was written.
    pub generated_at: String,
}

/// A module that the lockfile covers.
#[derive(Debug)]
pub struct LockedModule {
    pub coords: String,
    pub version: String,
    pub relative_path: String,
}

/// One locked artifact.
#[derive(Debug)]
pub struct LockfileEntry {
    /// `group:artifact`.
    pub coords: String,
    pub version: String,
    pub scope: String,
    pub optional: bool,
    pub sha256: String,
    pub sha1: Option<String>,
    pub size_bytes: u64,
    pub source_url: String,
    pub etag: Option<String>,
    pub last_modified: Option<String>,
    pub classifier: Option<String>,
    pub type_: String,
    /// The coordinates from the direct dependency down to this entry's parent.
    pub from_path: Vec<String>,
    pub depth: u32,
    pub snapshot_resolution: Option<String>,
    pub exclusions: Vec<String>,
}

/// A lockfile.
#[derive(Debug)]
pub struct Lockfile {
    pub meta: LockfileMeta,
    pub reactor: Vec<LockedModule>,
    pub entries: Vec<LockfileEntry>,
    pub settings_snapshot: Option<String>,
}

// ---------------------------------------------------------------------------
// Models
// ---------------------------------------------------------------------------

/// A locked module, by contents.
pub struct ModuleModel {
    pub coords: Seq<char>,
    pub version: Seq<char>,
    pub relative_path: Seq<char>,
}

/// A locked artifact, by contents.
pub struct EntryModel {
    pub coords: Seq<char>,
    pub version: Seq<char>,
    pub scope: Seq<char>,
    pub optional: bool,
    pub sha256: Seq<char>,
    pub sha1: Option<Seq<char>>,
    pub size_bytes: u64,
    pub source_url: Seq<char>,
    pub etag: Option<Seq<char>>,
    pub last_modified: Option<Seq<char>>,
    pub classifier: Option<Seq<char>>,
    pub type_: Seq<char>,
    pub from_path: Seq<Seq<char>>,
    pub depth: u32,
    pub snapshot_resolution: Option<Seq<char>>,
    pub exclusions: Seq<Seq<char>>,
}

/// A lockfile without its timestamp, by contents.
pub struct DurableModel {
    pub schema_version: u32,
    pub project_signature: Seq<char>,
    pub settings_fingerprint: Seq<char>,
    pub reactor: Seq<ModuleModel>,
    pub entries: Seq<EntryModel>,
    pub settings_snapshot: Option<Seq<char>>,
}

/// A lockfile, by contents.
pub struct LockfileModel {
    pub durable: DurableModel,
    pub generated_at: Seq<char>,
}

impl View for LockedModule {
    type V = ModuleModel;

    open spec fn view(&self) -> ModuleModel {
        ModuleModel {
            coords: self.coords@,
            version: self.version@,
            relative_path: self.relative_path@,
        }
    }
}

impl View for LockfileEntry {
    type V = EntryModel;

    open spec fn view(&self) -> EntryModel {
        EntryModel {
            coords: self.coords@,
            version: self.version@,
            scope: self.scope@,
            optional: self.optional,
            sha256: self.sha256@,
            sha1: text::opt_text(self.sha1),
            size_bytes: self.size_bytes,
            source_url: self.source_url@,
            etag: text::opt_text(self.etag),
            last_modified: text::opt_text(self.last_modified),
            classifier: text::opt_text(self.classifier),
            type_: self.type_@,
            from_path: text::texts(self.from_path@),
            depth: self.depth,
            snapshot_resolution: text::opt_text(self.snapshot_resolution),
            exclusions: text::texts(self.exclusions@),
        }
    }
}

impl View for Lockfile {
    type V = LockfileModel;

    open spec fn view(&self) -> LockfileModel {
        LockfileModel {
            durable: DurableModel {
                schema_version: self.meta.schema_version,
                project_signature: self.meta.project_signature@,
                settings_fingerprint: self.meta.settings_fingerprint@,
                reactor: modules_of(self.reactor@),
                entries: entries_of(self.entries@),
                settings_snapshot: text::opt_text(self.settings_snapshot),
            },
            generated_at: self.meta.generated_at@,
        }
    }
}

/// The contents of a list of locked modules.
pub open spec fn modules_of(ms: Seq<LockedModule>) -> Seq<ModuleModel> {
    ms.map_values(|m: LockedModule| m@)
}

/// The contents of a list of locked artifacts.
pub open spec fn entries_of(es: Seq<LockfileEntry>) -> Seq<EntryModel> {
    es.map_values(|e: LockfileEntry| e@)
}

/// `group:artifact:version`, with classifier and type where there is a classifier.
pub open spec fn coord_text(e: EntryModel) -> Seq<char> {
    match e.classifier {
        Some(c) => e.coords + ":"@ + e.version + ":"@ + c + ":"@ + e.type_,
        None => e.coords + ":"@ + e.version,
    }
}

// ---------------------------------------------------------------------------
// Comparison and copies
// ---------------------------------------------------------------------------

/// Whether two optional texts are the same.
fn same_opt(a: &Option<String>, b: &Option<String>) -> (r: bool)
    ensures
        r == (text::opt_text(*a) == text::opt_text(*b)),
{
    match (a, b) {
        (Some(x), Some(y)) => text::same_text(x.as_str(), y.as_str()),
        (None, None) => true,
        _ => false,
    }
}

/// Whether two lists hold the same texts in the same order.
fn same_texts(a: &Vec<String>, b: &Vec<String>) -> (r: bool)
    ensures
        r == (text::texts(a@) == text::texts(b@)),
{
    let ghost x = text::texts(a@);
    let ghost y = text::texts(b@);
    if a.len() != b.len() {
        assert(x.len() != y.len());
        return false;
    }
    let mut i: usize = 0;
    while i < a.len()
        invariant
            i <= a@.len(),
            a@.len() == b@.len(),
            x == text::texts(a@),
            y == text::texts(b@),
            forall|j: int| 0 <= j < i ==> x[j] == y[j],
        decreases a@.len() - i,
    {
        if !text::same_text(a[i].as_str(), b[i].as_str()) {
            assert(x[i as int] != y[i as int]);
            return false;
        }
        i = i + 1;
    }
    assert(x =~= y);
    true
}

/// Whether two locked modules are the same.
fn same_module(a: &LockedModule, b: &LockedModule) -> (r: bool)
    ensures
        r == (a@ == b@),
{
    text::same_text(a.coords.as_str(), b.coords.as_str()) && text::same_text(
        a.version.as_str(),
        b.version.as_str(),
    ) && text::same_text(a.relative_path.as_str(), b.relative_path.as_str())
}

/// Whether two locked artifacts are the same.
fn same_entry(a: &LockfileEntry, b: &LockfileEntry) -> (r: bool)
    ensures
        r == (a@ == b@),
{
    a.optional == b.optional && a.size_bytes == b.size_bytes && a.depth == b.depth
        && text::same_text(a.coords.as_str(), b.coords.as_str()) && text::same_text(
        a.version.as_str(),
        b.version.as_str(),
    ) && text::same_text(a.scope.as_str(), b.scope.as_str()) && text::same_text(
        a.sha256.as_str(),
        b.sha256.as_str(),
    ) && text::same_text(a.source_url.as_str(), b.source_url.as_str()) && text::same_text(
        a.type_.as_str(),
        b.type_.as_str(),
    ) && same_opt(&a.sha1, &b.sha1) && same_opt(&a.etag, &b.etag) && same_opt(
        &a.last_modified,
        &b.last_modified,
    ) && same_opt(&a.classifier, &b.classifier) && same_opt(
        &a.snapshot_resolution,
        &b.snapshot_resolution,
    ) && same_texts(&a.from_path, &b.from_path) && same_texts(&a.exclusions, &b.exclusions)
}

/// Whether two lists of locked modules are the same.
fn same_modules(a: &Vec<LockedModule>, b: &Vec<LockedModule>) -> (r: bool)
    ensures
        r == (modules_of(a@) == modules_of(b@)),
{
    let ghost x = modules_of(a@);
    let ghost y = modules_of(b@);
    if a.len() != b.len() {
        assert(x.len() != y.len());
        return false;
    }
    let mut i: usize = 0;
    while i < a.len()
        invariant
            i <= a@.len(),
            a@.len() == b@.len(),
            x == modules_of(a@),
            y == modules_of(b@),
            forall|j: int| 0 <= j < i ==> x[j] == y[j],
        decreases a@.len() - i,
    {
        if !same_module(&a[i], &b[i]) {
            assert(x[i as int] != y[i as int]);
            return false;
        }
        i = i + 1;
    }
    assert(x =~= y);
    true
}

/// Whether two lists of locked artifacts are the same.
fn same_entries(a: &Vec<LockfileEntry>, b: &Vec<LockfileEntry>) -> (r: bool)
    ensures
        r == (entries_of(a@) == entries_of(b@)),
{
    let ghost x = entries_of(a@);
    let ghost y = entries_of(b@);
    if a.len() != b.len() {
        assert(x.len() != y.len());
        return false;
    }
    let mut i: usize = 0;
    while i < a.len()
        invariant
            i <= a@.len(),
            a@.len() == b@.len(),
            x == entries_of(a@),
            y == entries_of(b@),
            forall|j: int| 0 <= j < i ==> x[j] == y[j],
        decreases a@.len() - i,
    {
        if !same_entry(&a[i], &b[i]) {
            assert(x[i as int] != y[i as int]);
            return false;
        }
        i = i + 1;
    }
    assert(x =~= y);
    true
}

/// Whether two lockfiles agree in everything but the time that they were written at.
pub fn lockfiles_equal_ignoring_timestamp(a: &Lockfile, b: &Lockfile) -> (r: bool)
    ensures
        r == (a@.durable == b@.durable),
{
    a.meta.schema_version == b.meta.schema_version && text::same_text(
        a.meta.project_signature.as_str(),
        b.meta.project_signature.as_str(),
    ) && text::same_text(
        a.meta.settings_fingerprint.as_str(),
        b.meta.settings_fingerprint.as_str(),
    ) && same_modules(&a.reactor, &b.reactor) && same_entries(&a.entries, &b.entries) && same_opt(
        &a.settings_snapshot,
        &b.settings_snapshot,
    )
}

/// The coordinate of an entry as messages show it.
pub fn format_coord(e: &LockfileEntry) -> (r: String)
    ensures
        r@ == coord_text(e@),
{
    let mut s = e.coords.clone();
    s.append(":");
    s.append(e.version.as_str());
    match &e.classifier {
        Some(c) => {
            s.append(":");
            s.append(c.as_str());
            s.append(":");
            s.append(e.type_.as_str());
        },
        None => {},
    }
    s
}

// ---------------------------------------------------------------------------
// The dependency tree of a lockfile
// ---------------------------------------------------------------------------

/// Whether `r` shows the lockfile `lf`: every module and every entry, in its order.
pub open spec fn shows(r: GrindTreeReport, lf: Lockfile) -> bool {
    &&& r.schema_version == 1
    &&& r.reactor@.len() == lf.reactor@.len()
    &&& r.nodes@.len() == lf.entries@.len()
    &&& forall|i: int|
        0 <= i < lf.reactor@.len() ==> module_shown(#[trigger] r.reactor@[i], lf.reactor@[i])
    &&& forall|i: int|
        0 <= i < lf.entries@.len() ==> node_shown(#[trigger] r.nodes@[i], lf.entries@[i])
}

/// Whether a shown module is the locked one.
pub open spec fn module_shown(m: ReactorModule, l: LockedModule) -> bool {
    m.coords@ == l.coords@ && m.version@ == l.version@ && m.relative_path@ == l.relative_path@
}

/// Whether a shown node is the locked artifact.
pub open spec fn node_shown(n: TreeNode, e: LockfileEntry) -> bool {
    &&& n.coords@ == e.coords@
    &&& n.version@ == e.version@
    &&& n.scope@ == e.scope@
    &&& n.depth == e.depth
    &&& text::texts(n.from_path@) == text::texts(e.from_path@)
}

/// The node of a locked artifact.
fn node_from_entry(e: &LockfileEntry) -> (r: TreeNode)
    ensures
        node_shown(r, *e),
{
    TreeNode {
        coords: e.coords.clone(),
        version: e.version.clone(),
        scope: e.scope.clone(),
        depth: e.depth,
        from_path: text::clone_texts(&e.from_path),
    }
}

/// The dependency tree of a lockfile.
pub fn report_from_lockfile(lf: &Lockfile) -> (r: GrindTreeReport)
    ensures
        shows(r, *lf),
{
    let mut reactor: Vec<ReactorModule> = Vec::new();
    let mut i: usize = 0;
    while i < lf.reactor.len()
        invariant
            i <= lf.reactor@.len(),
            reactor@.len() == i,
            forall|j: int| 0 <= j < i ==> module_shown(#[trigger] reactor@[j], lf.reactor@[j]),
        decreases lf.reactor@.len() - i,
    {
        let m = &lf.reactor[i];
        reactor.push(
            ReactorModule {
                coords: m.coords.clone(),
                version: m.version.clone(),
                relative_path: m.relative_path.clone(),
            },
        );
        i = i + 1;
    }
    let mut nodes: Vec<TreeNode> = Vec::new();
    let mut k: usize = 0;
    while k < lf.entries.len()
        invariant
            k <= lf.entries@.len(),
            nodes@.len() == k,
            forall|j: int| 0 <= j < k ==> node_shown(#[trigger] nodes@[j], lf.entries@[j]),
        decreases lf.entries@.len() - k,
    {
        nodes.push(node_from_entry(&lf.entries[k]));
        k = k + 1;
    }
    GrindTreeReport { schema_version: 1, reactor, nodes }
}

// ---------------------------------------------------------------------------
// Laws
// ---------------------------------------------------------------------------

/// The time of writing never makes two lockfiles different.
pub proof fn timestamp_is_not_durable(a: Lockfile, at: String)
    ensures
        (Lockfile { meta: (LockfileMeta { generated_at: at, ..a.meta }), ..a })@.durable
            == a@.durable,
{
}

/// A coordinate names its artifact and version, and the classifier and type where there is one.
pub proof fn coordinates_name_the_artifact(e: EntryModel)
    ensures
        e.classifier is None ==> coord_text(e) == text::joined(seq![e.coords, e.version], ":"@),
        e.classifier matches Some(c) ==> coord_text(e) == text::joined(
            seq![e.coords, e.version, c, e.type_],
            ":"@,
        ),
{
    reveal_with_fuel(text::joined, 5);
    let two = seq![e.coords, e.version];
    assert(two.drop_last() =~= seq![e.coords]);
    if let Some(c) = e.classifier {
        let four = seq![e.coords, e.version, c, e.type_];
        assert(four.drop_last() =~= seq![e.coords, e.version, c]);
        assert(four.drop_last().drop_last() =~= two);
    }
    assert(seq![e.coords].drop_last() =~= Seq::empty());
}

/// The tree of a lockfile shows each locked module and each entry in its place, with all that
/// it tells of it.
pub proof fn tree_shows_every_entry(r: GrindTreeReport, lf: Lockfile, i: int)
    requires
        shows(r, lf),
    ensures
        r.reactor@.len() == lf.reactor@.len(),
        r.nodes@.len() == lf.entries@.len(),
        0 <= i < lf.reactor@.len() ==> r.reactor@[i].coords@ == lf.reactor@[i].coords@
            && r.reactor@[i].version@ == lf.reactor@[i].version@ && r.reactor@[i].relative_path@
            == lf.reactor@[i].relative_path@,
        0 <= i < lf.entries@.len() ==> r.nodes@[i].coords@ == lf.entries@[i].coords@
            && r.nodes@[i].version@ == lf.entries@[i].version@ && r.nodes@[i].scope@
            == lf.entries@[i].scope@ && r.nodes@[i].depth == lf.entries@[i].depth && text::texts(
            r.nodes@[i].from_path@,
        ) == text::texts(lf.entries@[i].from_path@),
{
    if 0 <= i < lf.reactor@.len() {
        assert(module_shown(r.reactor@[i], lf.reactor@[i]));
    }
    if 0 <= i < lf.entries@.len() {
        assert(node_shown(r.nodes@[i], lf.entries@[i]));
    }
}

/// Two lockfiles that lock different artifacts differ, whatever time they were written at.
pub proof fn locked_contents_tell_lockfiles_apart(a: Lockfile, b: Lockfile, i: int)
    requires
        a@.durable == b@.durable,
        0 <= i < a.entries@.len(),
    ensures
        a.entries@.len() == b.entries@.len(),
        a.reactor@.len() == b.reactor@.len(),
        a.meta.schema_version == b.meta.schema_version,
        a.meta.project_signature@ == b.meta.project_signature@,
        a.meta.settings_fingerprint@ == b.meta.settings_fingerprint@,
        a.entries@[i].coords@ == b.entries@[i].coords@,
        a.entries@[i].version@ == b.entries@[i].version@,
        a.entries@[i].scope@ == b.entries@[i].scope@,
        a.entries@[i].sha256@ == b.entries@[i].sha256@,
        a.entries@[i].source_url@ == b.entries@[i].source_url@,
        a.entries@[i].size_bytes == b.entries@[i].size_bytes,
        a.entries@[i].depth == b.entries@[i].depth,
        a.entries@[i].optional == b.entries@[i].optional,
{
    assert(entries_of(a.entries@) == entries_of(b.entries@));
    assert(entries_of(a.entries@).len() == a.entries@.len());
    assert(entries_of(b.entries@).len() == b.entries@.len());
    assert(modules_of(a.reactor@).len() == a.reactor@.len());
    assert(modules_of(b.reactor@).len() == b.reactor@.len());
    assert(entries_of(a.entries@)[i] == a.entries@[i]@);
    assert(entries_of(b.entries@)[i] == b.entries@[i]@);
}

/// What is said of an entry or a module is said of what it holds.
pub proof fn models_are_of_their_entries(e: LockfileEntry, m: LockedModule)
    ensures
        m@.coords == m.coords@,
        m@.version == m.version@,
        m@.relative_path == m.relative_path@,
        e@.coords == e.coords@,
        e@.version == e.version@,
        e@.scope == e.scope@,
        e@.sha256 == e.sha256@,
        e@.source_url == e.source_url@,
        e@.type_ == e.type_@,
        e@.classifier == text::opt_text(e.classifier),
        e@.sha1 == text::opt_text(e.sha1),
        e@.etag == text::opt_text(e.etag),
        e@.last_modified == text::opt_text(e.last_modified),
        e@.snapshot_resolution == text::opt_text(e.snapshot_resolution),
        e@.from_path == text::texts(e.from_path@),
        e@.exclusions == text::texts(e.exclusions@),
        e@.depth == e.depth && e@.size_bytes == e.size_bytes && e@.optional == e.optional,
{
}

} // verus!
