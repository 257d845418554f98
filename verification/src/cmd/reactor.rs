//! The multi-module reactor: discovery, the inter-module dependency graph and its
//! level-by-level order.
//!
//! A module that depends on another one is built after it; modules that do not depend
//! on each other can be built side by side. The levels say which: everything in one
//! level depends only on earlier levels.

use vstd::prelude::*;
use vstd::string::*;

use crate::action_graph;
use crate::action_graph::ActionGraph;
use crate::cmd::maven_vocab;
use crate::cmd::maven_vocab::MavenPhase;
use crate::cmd::schedule;
use crate::cmd::schedule::{Progress, Schedule, Step};
use crate::paths;
use crate::project;
use crate::text;

verus! {

/// The identity of a Maven module.
#[derive(Debug)]
pub struct ModuleId {
    pub group_id: String,
    pub artifact_id: String,
}

/// One module of a reactor.
#[derive(Debug)]
pub struct ModuleNode {
    pub id: ModuleId,
    /// The module's directory.
    pub root: String,
    /// What is run on the module.
    pub action_graph: ActionGraph,
    /// The indices of the modules that this one depends on.
    pub depends_on: Vec<usize>,
}

/// The modules of a project and the levels in which they are built.
#[derive(Debug)]
pub struct Reactor {
    /// The modules in the order in which they were discovered.
    pub modules: Vec<ModuleNode>,
    /// The levels; within a level the indices ascend.
    pub topo_levels: Vec<Vec<usize>>,
}

/// Why no reactor could be built.
#[derive(Debug)]
pub enum ReactorError {
    /// A `pom.xml` could not be read or parsed.
    Pom { path: String, detail: String },
    /// A module has no `artifactId`.
    MissingArtifactId { path: String },
    /// Modules depend on each other in a circle.
    Cycle { path: String },
}

/// What reading one `pom.xml` gave.
#[derive(Debug)]
pub struct PomFacts {
    pub group_id: Option<String>,
    pub parent_group_id: Option<String>,
    pub artifact_id: String,
    /// The identities under `<dependencies>`, as written.
    pub dependencies: Vec<ModuleId>,
    /// The entries under `<modules>`, as written.
    pub modules: Vec<String>,
}

/// A module before its dependencies are matched against the others.
#[derive(Debug)]
pub struct DiscoveredModule {
    pub id: ModuleId,
    pub root: String,
    pub dependency_gas: Vec<ModuleId>,
}

// ---------------------------------------------------------------------------
// Model: identities
// ---------------------------------------------------------------------------

/// A group and an artifact.
pub type Ga = (Seq<char>, Seq<char>);

impl View for ModuleId {
    type V = Ga;

    open spec fn view(&self) -> Ga {
        (self.group_id@, self.artifact_id@)
    }
}

/// `group:artifact`.
pub open spec fn ga_text(id: Ga) -> Seq<char> {
    id.0 + ":"@ + id.1
}

/// The model of a list of identities.
pub open spec fn gas(ids: Seq<ModuleId>) -> Seq<Ga> {
    ids.map_values(|m: ModuleId| m@)
}

impl ModuleId {
    /// The identity as `group:artifact`.
    pub fn to_ga(&self) -> (r: String)
        ensures
            r@ == ga_text(self@),
    {
        let mut out = self.group_id.clone();
        out.append(":");
        out.append(self.artifact_id.as_str());
        out
    }

    fn copy(&self) -> (r: ModuleId)
        ensures
            r@ == self@,
    {
        ModuleId { group_id: self.group_id.clone(), artifact_id: self.artifact_id.clone() }
    }

    fn same(&self, other: &ModuleId) -> (r: bool)
        ensures
            r == (self@ == other@),
    {
        text::same_text(self.group_id.as_str(), other.group_id.as_str()) && text::same_text(
            self.artifact_id.as_str(),
            other.artifact_id.as_str(),
        )
    }
}

// ---------------------------------------------------------------------------
// Model: levels
// ---------------------------------------------------------------------------

/// A dependency graph: for each module the list of modules it depends on.
pub type Graph = Seq<Seq<usize>>;

/// The dependency graph of a list of modules.
pub open spec fn graph_of(ms: Seq<ModuleNode>) -> Graph {
    ms.map_values(|m: ModuleNode| m.depends_on@)
}

/// Whether a module with the dependencies `ds` can be built once `done` is built. A list
/// that names a module twice is never satisfied.
pub open spec fn ready(ds: Seq<usize>, done: Set<int>) -> bool {
    ds.no_duplicates() && forall|k: int| 0 <= k < ds.len() ==> done.contains(#[trigger] ds[k] as int)
}

/// The modules that the first `k` levels build.
pub open spec fn built_after(g: Graph, k: nat) -> Set<int>
    decreases k,
{
    if k == 0 {
        Set::empty()
    } else {
        Set::new(|i: int| 0 <= i < g.len() && ready(g[i], built_after(g, (k - 1) as nat)))
    }
}

/// Whether some level builds module `i`.
pub open spec fn buildable(g: Graph, i: int) -> bool {
    exists|k: nat| #[trigger] built_after(g, k).contains(i)
}

/// The indices ascend.
pub open spec fn ascending(s: Seq<usize>) -> bool {
    forall|a: int, b: int| 0 <= a < b < s.len() ==> s[a] < s[b]
}

/// `level` is level `k` of a graph: the ascending list of what can be built after the
/// levels before it and was not built by them.
pub open spec fn is_level(g: Graph, k: nat, level: Seq<usize>) -> bool {
    &&& level.len() > 0
    &&& ascending(level)
    &&& forall|i: usize| #[trigger]
        level.contains(i) <==> (built_after(g, k + 1).contains(i as int) && !built_after(
            g,
            k,
        ).contains(i as int))
}

/// `levels` are the levels of a graph, and they build every module.
pub open spec fn are_levels(g: Graph, levels: Seq<Vec<usize>>) -> bool {
    &&& forall|k: int| 0 <= k < levels.len() ==> is_level(g, k as nat, #[trigger] levels[k]@)
    &&& forall|i: int| 0 <= i < g.len() ==> #[trigger] built_after(g, levels.len()).contains(i)
}

// ---------------------------------------------------------------------------
// Model: cycles
// ---------------------------------------------------------------------------

/// The first dependency that is never built.
pub open spec fn first_blocked(g: Graph, ds: Seq<usize>) -> Option<usize>
    decreases ds.len(),
{
    if ds.len() == 0 {
        None
    } else if ds[0] < g.len() && !buildable(g, ds[0] as int) {
        Some(ds[0])
    } else {
        first_blocked(g, ds.drop_first())
    }
}

/// `p` follows, from the first module that is never built, the first dependency that is
/// never built, and visits no module twice.
pub open spec fn is_blocked_walk(g: Graph, p: Seq<usize>) -> bool {
    &&& p.len() > 0
    &&& p.no_duplicates()
    &&& forall|j: int| 0 <= j < p.len() ==> (#[trigger] p[j]) < g.len() && !buildable(g, p[j] as int)
    &&& forall|i: int| 0 <= i < p[0] ==> buildable(g, i)
    &&& forall|j: int|
        0 <= j < p.len() - 1 ==> first_blocked(g, #[trigger] g[p[j] as int]) == Some(p[j + 1])
}

/// The names of the modules of a path, with arrows between them.
pub open spec fn path_text(ids: Seq<Ga>, p: Seq<usize>) -> Seq<char> {
    text::joined(p.map_values(|i: usize| ga_text(ids[i as int])), " -> "@)
}

/// `t` names a circle among the modules that are never built: where the walk comes back
/// to a module, the circle from that module; where it ends, the whole walk.
pub open spec fn names_blocked(g: Graph, ids: Seq<Ga>, t: Seq<char>) -> bool {
    exists|p: Seq<usize>| #[trigger]
        is_blocked_walk(g, p) && match first_blocked(g, g[p.last() as int]) {
            None => t == path_text(ids, p),
            Some(d) => exists|j: int|
                0 <= j < p.len() && p[j] == d && t == path_text(ids, #[trigger] p.skip(j).push(d)),
        }
}

/// The identities of a list of modules.
pub open spec fn ids_of(ms: Seq<ModuleNode>) -> Seq<Ga> {
    ms.map_values(|m: ModuleNode| m.id@)
}

// ---------------------------------------------------------------------------
// Facts about levels
// ---------------------------------------------------------------------------

proof fn ready_grows(ds: Seq<usize>, a: Set<int>, b: Set<int>)
    requires
        a.subset_of(b),
        ready(ds, a),
    ensures
        ready(ds, b),
{
}

/// What a level builds stays built.
pub proof fn built_grows(g: Graph, k: nat)
    ensures
        built_after(g, k).subset_of(built_after(g, k + 1)),
    decreases k,
{
    if k > 0 {
        built_grows(g, (k - 1) as nat);
        assert forall|i: int| built_after(g, k).contains(i) implies built_after(g, k + 1).contains(
            i,
        ) by {
            ready_grows(g[i], built_after(g, (k - 1) as nat), built_after(g, k));
        }
    }
}

proof fn built_grows_far(g: Graph, k: nat, m: nat)
    requires
        k <= m,
    ensures
        built_after(g, k).subset_of(built_after(g, m)),
    decreases m - k,
{
    if k < m {
        built_grows_far(g, k, (m - 1) as nat);
        built_grows(g, (m - 1) as nat);
    }
}

/// Where a level builds nothing new, no later level does.
proof fn built_stops(g: Graph, k: nat, m: nat)
    requires
        built_after(g, k + 1) =~= built_after(g, k),
    ensures
        built_after(g, m).subset_of(built_after(g, k)),
    decreases m,
{
    if m <= k {
        built_grows_far(g, m, k);
    } else {
        built_stops(g, k, (m - 1) as nat);
        assert forall|i: int| built_after(g, m).contains(i) implies built_after(g, k).contains(i) by {
            ready_grows(g[i], built_after(g, (m - 1) as nat), built_after(g, k));
            assert(built_after(g, k + 1).contains(i));
        }
    }
}

/// Only modules of the graph are built, so there are finitely many.
proof fn built_is_finite(g: Graph, k: nat)
    ensures
        built_after(g, k).finite(),
        built_after(g, k).len() <= g.len(),
{
    let all = vstd::set_lib::set_int_range(0, g.len() as int);
    vstd::set_lib::lemma_int_range(0, g.len() as int);
    assert(built_after(g, k).subset_of(all));
    vstd::set_lib::lemma_len_subset(built_after(g, k), all);
}

// ---------------------------------------------------------------------------
// Levels
// ---------------------------------------------------------------------------

/// The modules that are marked.
spec fn marked(flags: Seq<bool>) -> Set<int> {
    Set::new(|i: int| 0 <= i < flags.len() && flags[i])
}

fn has_no_duplicates(ds: &Vec<usize>) -> (r: bool)
    ensures
        r == ds@.no_duplicates(),
{
    let mut i: usize = 0;
    while i < ds.len()
        invariant
            i <= ds@.len(),
            forall|a: int, b: int| 0 <= a < b < i ==> ds@[a] != ds@[b],
        decreases ds@.len() - i,
    {
        let mut j: usize = 0;
        while j < i
            invariant
                j <= i < ds@.len(),
                forall|a: int| 0 <= a < j ==> ds@[a] != ds@[i as int],
            decreases i - j,
        {
            if ds[j] == ds[i] {
                return false;
            }
            j = j + 1;
        }
        i = i + 1;
    }
    true
}

fn is_ready(ds: &Vec<usize>, done: &Vec<bool>) -> (r: bool)
    ensures
        r == ready(ds@, marked(done@)),
{
    let mut k: usize = 0;
    while k < ds.len()
        invariant
            k <= ds@.len(),
            forall|j: int| 0 <= j < k ==> marked(done@).contains(#[trigger] ds@[j] as int),
        decreases ds@.len() - k,
    {
        if !(ds[k] < done.len() && done[ds[k]]) {
            assert(!marked(done@).contains(ds@[k as int] as int));
            return false;
        }
        k = k + 1;
    }
    has_no_duplicates(ds)
}

/// The ascending list of what can be built now and is not built yet.
fn next_level(modules: &Vec<ModuleNode>, done: &Vec<bool>) -> (level: Vec<usize>)
    requires
        done@.len() == modules@.len(),
    ensures
        ascending(level@),
        forall|i: usize| #[trigger]
            level@.contains(i) <==> (i < modules@.len() && !done@[i as int] && ready(
                modules@[i as int].depends_on@,
                marked(done@),
            )),
{
    let mut level: Vec<usize> = Vec::new();
    let mut i: usize = 0;
    while i < modules.len()
        invariant
            i <= modules@.len(),
            done@.len() == modules@.len(),
            ascending(level@),
            forall|k: int| 0 <= k < level@.len() ==> #[trigger] level@[k] < i,
            forall|x: usize| #[trigger]
                level@.contains(x) <==> (x < i && !done@[x as int] && ready(
                    modules@[x as int].depends_on@,
                    marked(done@),
                )),
        decreases modules@.len() - i,
    {
        if !done[i] && is_ready(&modules[i].depends_on, done) {
            let ghost before = level@;
            level.push(i);
            proof {
                assert(level@[before.len() as int] == i);
                assert forall|x: usize| #[trigger] level@.contains(x) <==> (before.contains(x) || x
                    == i) by {
                    if before.contains(x) {
                        let k = choose|k: int| 0 <= k < before.len() && before[k] == x;
                        assert(level@[k] == x);
                    }
                    if level@.contains(x) {
                        let k = choose|k: int| 0 <= k < level@.len() && level@[k] == x;
                        if k < before.len() {
                            assert(before[k] == x);
                        }
                    }
                }
            }
        }
        i = i + 1;
    }
    level
}

fn mark_level(done: &mut Vec<bool>, level: &Vec<usize>)
    requires
        forall|k: int| 0 <= k < level@.len() ==> #[trigger] level@[k] < old(done)@.len(),
    ensures
        final(done)@.len() == old(done)@.len(),
        forall|i: usize|
            i < final(done)@.len() ==> (#[trigger] final(done)@[i as int] <==> (old(
                done,
            )@[i as int] || level@.contains(i))),
{
    let ghost before = done@;
    let mut k: usize = 0;
    while k < level.len()
        invariant
            k <= level@.len(),
            done@.len() == before.len(),
            forall|j: int| 0 <= j < level@.len() ==> #[trigger] level@[j] < before.len(),
            forall|i: usize|
                i < done@.len() ==> (#[trigger] done@[i as int] <==> (before[i as int]
                    || level@.take(k as int).contains(i))),
        decreases level@.len() - k,
    {
        let i: usize = level[k];
        done.set(i, true);
        proof {
            let shorter = level@.take(k as int);
            let longer = level@.take(k + 1);
            assert(longer =~= shorter.push(i));
            assert forall|x: usize| #[trigger] longer.contains(x) <==> (shorter.contains(x) || x
                == i) by {
                assert(longer[k as int] == i);
                if shorter.contains(x) {
                    let j = choose|j: int| 0 <= j < shorter.len() && shorter[j] == x;
                    assert(longer[j] == x);
                }
                if longer.contains(x) {
                    let j = choose|j: int| 0 <= j < longer.len() && longer[j] == x;
                    if j < k {
                        assert(shorter[j] == x);
                    }
                }
            }
        }
        k = k + 1;
    }
    assert(level@.take(level@.len() as int) =~= level@);
}

/// The levels of the modules' dependency graph, or a circle in it.
pub fn kahn_topo_levels(modules: &Vec<ModuleNode>) -> (r: Result<Vec<Vec<usize>>, ReactorError>)
    ensures
        match r {
            Ok(levels) => are_levels(graph_of(modules@), levels@),
            Err(ReactorError::Cycle { path }) => names_blocked(
                graph_of(modules@),
                ids_of(modules@),
                path@,
            ),
            Err(_) => false,
        },
        r is Ok <==> forall|i: int|
            0 <= i < modules@.len() ==> #[trigger] buildable(graph_of(modules@), i),
{
    let ghost g = graph_of(modules@);
    let n: usize = modules.len();
    let mut done: Vec<bool> = Vec::new();
    let mut f: usize = 0;
    while f < n
        invariant
            f <= n,
            done@.len() == f,
            forall|i: int| 0 <= i < f ==> !#[trigger] done@[i],
        decreases n - f,
    {
        done.push(false);
        f = f + 1;
    }
    let mut levels: Vec<Vec<usize>> = Vec::new();
    assert(marked(done@) =~= built_after(g, 0));
    loop
        invariant
            n == modules@.len(),
            n == g.len(),
            g == graph_of(modules@),
            done@.len() == n,
            marked(done@) == built_after(g, levels@.len()),
            forall|k: int| 0 <= k < levels@.len() ==> is_level(g, k as nat, #[trigger] levels@[k]@),
        decreases n - built_after(g, levels@.len()).len(),
    {
        let ghost k = levels@.len();
        let level = next_level(modules, &done);
        proof {
            built_grows(g, k);
            assert forall|i: usize| #[trigger]
                level@.contains(i) <==> (built_after(g, k + 1).contains(i as int) && !built_after(
                    g,
                    k,
                ).contains(i as int)) by {
                if i < n {
                    assert(g[i as int] == modules@[i as int].depends_on@);
                    assert(marked(done@).contains(i as int) == done@[i as int]);
                }
            }
        }
        if level.len() == 0 {
            proof {
                assert forall|i: int| built_after(g, k + 1).contains(i) implies built_after(
                    g,
                    k,
                ).contains(i) by {
                    if !built_after(g, k).contains(i) {
                        assert(level@.contains(i as usize));
                    }
                }
                assert(built_after(g, k + 1) =~= built_after(g, k));
                assert forall|i: int| #[trigger] buildable(g, i) == built_after(g, k).contains(i) by {
                    if buildable(g, i) {
                        let m = choose|m: nat| #[trigger] built_after(g, m).contains(i);
                        built_stops(g, k, m);
                    }
                }
                assert forall|i: int| 0 <= i < n implies done@[i] == #[trigger] buildable(g, i) by {
                    assert(marked(done@).contains(i) == done@[i]);
                }
            }
            let mut i: usize = 0;
            while i < n
                invariant
                    i <= n,
                    n == modules@.len(),
                    g == graph_of(modules@),
                    done@.len() == n,
                    forall|j: int| 0 <= j < n ==> done@[j] == #[trigger] buildable(g, j),
                    forall|j: int| 0 <= j < i ==> #[trigger] done@[j],
                decreases n - i,
            {
                if !done[i] {
                    let path = render_cycle(modules, &done, i);
                    assert(!buildable(g, i as int));
                    return Err(ReactorError::Cycle { path });
                }
                i = i + 1;
            }
            proof {
                assert forall|j: int| 0 <= j < g.len() implies #[trigger] built_after(
                    g,
                    levels@.len(),
                ).contains(j) by {
                    assert(done@[j]);
                    assert(buildable(g, j));
                }
            }
            return Ok(levels);
        }
        let ghost old_done = done@;
        proof {
            assert forall|j: int| 0 <= j < level@.len() implies #[trigger] level@[j] < done@.len() by {
                assert(level@.contains(level@[j]));
            }
        }
        mark_level(&mut done, &level);
        proof {
            assert(marked(done@) =~= built_after(g, k + 1)) by {
                assert forall|i: int| marked(done@).contains(i) == built_after(g, k + 1).contains(
                    i,
                ) by {
                    if 0 <= i < n {
                        let u = i as usize;
                        assert(done@[u as int] <==> (old_done[u as int] || level@.contains(u)));
                        assert(marked(old_done).contains(i) == old_done[i]);
                    }
                }
            }
            let x = level@[0];
            assert(level@.contains(x));
            built_is_finite(g, k);
            built_is_finite(g, k + 1);
            let wider = built_after(g, k).insert(x as int);
            assert(wider.subset_of(built_after(g, k + 1)));
            vstd::set_lib::lemma_len_subset(wider, built_after(g, k + 1));
        }
        levels.push(level);
    }
}

/// The first dependency that is never built.
fn blocked_dependency(ds: &Vec<usize>, done: &Vec<bool>, Ghost(g): Ghost<Graph>) -> (r: Option<
    usize,
>)
    requires
        done@.len() == g.len(),
        forall|i: int| 0 <= i < g.len() ==> done@[i] == #[trigger] buildable(g, i),
    ensures
        r == first_blocked(g, ds@),
        r matches Some(d) ==> d < g.len() && !buildable(g, d as int),
{
    let mut i: usize = 0;
    assert(ds@.skip(0) =~= ds@);
    while i < ds.len()
        invariant
            i <= ds@.len(),
            done@.len() == g.len(),
            forall|j: int| 0 <= j < g.len() ==> done@[j] == #[trigger] buildable(g, j),
            first_blocked(g, ds@) == first_blocked(g, ds@.skip(i as int)),
        decreases ds@.len() - i,
    {
        let ghost rest = ds@.skip(i as int);
        let d: usize = ds[i];
        assert(rest[0] == d);
        assert(rest.drop_first() =~= ds@.skip(i + 1));
        if d < done.len() && !done[d] {
            assert(!buildable(g, d as int));
            return Some(d);
        }
        assert(d < g.len() ==> buildable(g, d as int));
        i = i + 1;
    }
    None
}

fn position(path: &Vec<usize>, d: usize) -> (r: Option<usize>)
    ensures
        match r {
            Some(j) => j < path@.len() && path@[j as int] == d,
            None => !path@.contains(d),
        },
{
    let mut j: usize = 0;
    while j < path.len()
        invariant
            j <= path@.len(),
            forall|k: int| 0 <= k < j ==> path@[k] != d,
        decreases path@.len() - j,
    {
        if path[j] == d {
            return Some(j);
        }
        j = j + 1;
    }
    None
}

/// The names of the modules of a path from position `from` on, with arrows between them.
fn render_path(modules: &Vec<ModuleNode>, path: &Vec<usize>, from: usize) -> (r: String)
    requires
        from <= path@.len(),
        forall|j: int| 0 <= j < path@.len() ==> #[trigger] path@[j] < modules@.len(),
    ensures
        r@ == path_text(ids_of(modules@), path@.skip(from as int)),
{
    let ghost ids = ids_of(modules@);
    let mut parts: Vec<String> = Vec::new();
    let mut j: usize = from;
    while j < path.len()
        invariant
            from <= j <= path@.len(),
            ids == ids_of(modules@),
            forall|k: int| 0 <= k < path@.len() ==> #[trigger] path@[k] < modules@.len(),
            parts@.len() == j - from,
            forall|k: int|
                0 <= k < parts@.len() ==> #[trigger] parts@[k]@ == ga_text(
                    ids[path@[k + from] as int],
                ),
        decreases path@.len() - j,
    {
        let part = modules[path[j]].id.to_ga();
        parts.push(part);
        j = j + 1;
    }
    assert(text::texts(parts@) =~= path@.skip(from as int).map_values(
        |i: usize| ga_text(ids[i as int]),
    ));
    text::join(&parts, " -> ")
}

/// Names a circle among the modules that are never built; `start` is the first of them.
fn render_cycle(modules: &Vec<ModuleNode>, done: &Vec<bool>, start: usize) -> (r: String)
    requires
        done@.len() == modules@.len(),
        forall|i: int|
            0 <= i < modules@.len() ==> done@[i] == #[trigger] buildable(graph_of(modules@), i),
        start < modules@.len(),
        !done@[start as int],
        forall|i: int| 0 <= i < start ==> #[trigger] done@[i],
    ensures
        names_blocked(graph_of(modules@), ids_of(modules@), r@),
{
    let ghost g = graph_of(modules@);
    let ghost ids = ids_of(modules@);
    let n: usize = modules.len();
    let mut path: Vec<usize> = Vec::new();
    path.push(start);
    assert(!buildable(g, start as int));
    assert forall|i: int| 0 <= i < start implies buildable(g, i) by {
        assert(done@[i]);
    }
    let mut cur: usize = start;
    loop
        invariant
            n == modules@.len(),
            g == graph_of(modules@),
            ids == ids_of(modules@),
            done@.len() == n,
            forall|i: int| 0 <= i < n ==> done@[i] == #[trigger] buildable(g, i),
            is_blocked_walk(g, path@),
            path@.last() == cur,
            cur < n,
            path@.len() <= n,
        decreases n - path@.len(),
    {
        assert(g[cur as int] == modules@[cur as int].depends_on@);
        match blocked_dependency(&modules[cur].depends_on, done, Ghost(g)) {
            None => {
                let r = render_path(modules, &path, 0);
                assert(path@.skip(0) =~= path@);
                return r;
            },
            Some(d) => {
                match position(&path, d) {
                    Some(j) => {
                        let ghost p = path@;
                        path.push(d);
                        let r = render_path(modules, &path, j);
                        assert(path@.skip(j as int) =~= p.skip(j as int).push(d));
                        assert(is_blocked_walk(g, p));
                        return r;
                    },
                    None => {
                        let ghost p = path@;
                        path.push(d);
                        cur = d;
                        proof {
                            no_duplicates_bounds(path@, n as nat);
                        }
                    },
                }
            },
        }
    }
}

/// A list of different indices below `n` is at most `n` long.
proof fn no_duplicates_bounds(p: Seq<usize>, n: nat)
    requires
        p.no_duplicates(),
        forall|j: int| 0 <= j < p.len() ==> #[trigger] p[j] < n,
    ensures
        p.len() <= n,
{
    let q = p.map_values(|i: usize| i as int);
    assert(q.no_duplicates());
    q.unique_seq_to_set();
    let all = vstd::set_lib::set_int_range(0, n as int);
    vstd::set_lib::lemma_int_range(0, n as int);
    assert(q.to_set().subset_of(all)) by {
        assert forall|x: int| q.to_set().contains(x) implies all.contains(x) by {
            let j = choose|j: int| 0 <= j < q.len() && q[j] == x;
            assert(p[j] < n);
        }
    }
    vstd::set_lib::lemma_len_subset(q.to_set(), all);
}

// ---------------------------------------------------------------------------
// Laws of the levels
// ---------------------------------------------------------------------------

/// Every dependency list names different modules of the graph.
pub open spec fn well_formed(g: Graph) -> bool {
    forall|i: int| 0 <= i < g.len() ==> (#[trigger] g[i]).no_duplicates() && forall|k: int|
        0 <= k < g[i].len() ==> #[trigger] g[i][k] < g.len()
}

/// A circle of modules, each of which depends on the next one.
pub open spec fn is_cycle(g: Graph, c: Seq<usize>) -> bool {
    &&& c.len() > 0
    &&& forall|j: int| 0 <= j < c.len() ==> #[trigger] c[j] < g.len()
    &&& forall|j: int| 0 <= j < c.len() - 1 ==> (#[trigger] g[c[j] as int]).contains(c[j + 1])
    &&& g[c.last() as int].contains(c[0])
}

proof fn first_level_of(g: Graph, i: int, k: nat) -> (m: nat)
    requires
        built_after(g, k).contains(i),
    ensures
        m < k,
        built_after(g, m + 1).contains(i),
        !built_after(g, m).contains(i),
    decreases k,
{
    let below = (k - 1) as nat;
    if built_after(g, below).contains(i) {
        first_level_of(g, i, below)
    } else {
        below
    }
}

/// The levels hold every module exactly once.
pub proof fn every_module_in_one_level(g: Graph, levels: Seq<Vec<usize>>, i: usize)
    requires
        are_levels(g, levels),
        i < g.len(),
    ensures
        exists|k: int| 0 <= k < levels.len() && (#[trigger] levels[k])@.contains(i),
        forall|k: int, m: int|
            0 <= k < levels.len() && 0 <= m < levels.len() && (#[trigger] levels[k])@.contains(i) && (
            #[trigger] levels[m])@.contains(i) ==> k == m,
        forall|k: int, a: int, b: int|
            0 <= k < levels.len() && 0 <= a < levels[k]@.len() && 0 <= b < levels[k]@.len() && (
            #[trigger] levels[k]@[a]) == i && (#[trigger] levels[k]@[b]) == i ==> a == b,
{
    assert(built_after(g, levels.len()).contains(i as int));
    let m = first_level_of(g, i as int, levels.len());
    assert(levels[m as int]@.contains(i));
    assert forall|k: int, m: int|
        0 <= k < levels.len() && 0 <= m < levels.len() && (#[trigger] levels[k])@.contains(i) && (
        #[trigger] levels[m])@.contains(i) implies k == m by {
        if k < m {
            built_grows_far(g, (k + 1) as nat, m as nat);
        } else if m < k {
            built_grows_far(g, (m + 1) as nat, k as nat);
        }
    }
}

/// Whatever a module depends on stands in an earlier level.
pub proof fn dependencies_come_first(
    g: Graph,
    levels: Seq<Vec<usize>>,
    k: int,
    i: usize,
    d: usize,
)
    requires
        are_levels(g, levels),
        0 <= k < levels.len(),
        levels[k]@.contains(i),
        g[i as int].contains(d),
    ensures
        exists|m: int| 0 <= m < k && (#[trigger] levels[m])@.contains(d),
{
    assert(is_level(g, k as nat, levels[k]@));
    assert(ready(g[i as int], built_after(g, k as nat)));
    let p = choose|p: int| 0 <= p < g[i as int].len() && g[i as int][p] == d;
    assert(built_after(g, k as nat).contains(d as int));
    let m = first_level_of(g, d as int, k as nat);
    assert(is_level(g, m, levels[m as int]@));
    assert(levels[m as int]@.contains(d));
}

/// The same graph always has the same levels.
pub proof fn levels_are_unique(g: Graph, a: Seq<Vec<usize>>, b: Seq<Vec<usize>>)
    requires
        are_levels(g, a),
        are_levels(g, b),
    ensures
        a.len() == b.len(),
        forall|k: int| 0 <= k < a.len() ==> (#[trigger] a[k])@ == b[k]@,
{
    level_count_is_forced(g, a, b);
    level_count_is_forced(g, b, a);
    assert forall|k: int| 0 <= k < a.len() implies (#[trigger] a[k])@ == b[k]@ by {
        assert(is_level(g, k as nat, b[k]@));
        assert(is_level(g, k as nat, a[k]@));
        ascending_is_determined(a[k]@, b[k]@);
    }
}

proof fn level_count_is_forced(g: Graph, a: Seq<Vec<usize>>, b: Seq<Vec<usize>>)
    requires
        are_levels(g, a),
        are_levels(g, b),
    ensures
        b.len() <= a.len(),
{
    if a.len() < b.len() {
        let k = a.len();
        assert(is_level(g, k, b[k as int]@));
        let x = b[k as int]@[0];
        assert(b[k as int]@.contains(x));
        assert(built_after(g, k).contains(x as int));
    }
}

/// Two ascending lists with the same members are equal.
proof fn ascending_is_determined(a: Seq<usize>, b: Seq<usize>)
    requires
        ascending(a),
        ascending(b),
        forall|x: usize| a.contains(x) <==> b.contains(x),
    ensures
        a == b,
    decreases a.len(),
{
    if a.len() == 0 {
        if b.len() > 0 {
            assert(b.contains(b[0]));
        }
        assert(a =~= b);
    } else {
        assert(a.contains(a.last()));
        let p = choose|p: int| 0 <= p < b.len() && b[p] == a.last();
        assert(b.contains(b.last()));
        let q = choose|q: int| 0 <= q < a.len() && a[q] == b.last();
        assert(a.last() == b.last());
        let x = a.drop_last();
        let y = b.drop_last();
        assert forall|v: usize| x.contains(v) <==> y.contains(v) by {
            if x.contains(v) {
                let j = choose|j: int| 0 <= j < x.len() && x[j] == v;
                assert(a[j] == v);
                assert(b.contains(v));
                let k = choose|k: int| 0 <= k < b.len() && b[k] == v;
                assert(y[k] == v);
            }
            if y.contains(v) {
                let j = choose|j: int| 0 <= j < y.len() && y[j] == v;
                assert(b[j] == v);
                assert(a.contains(v));
                let k = choose|k: int| 0 <= k < a.len() && a[k] == v;
                assert(x[k] == v);
            }
        }
        ascending_is_determined(x, y);
        assert(a =~= x.push(a.last()));
        assert(b =~= y.push(b.last()));
    }
}

/// No module of a circle is ever built.
pub proof fn cycle_is_never_built(g: Graph, c: Seq<usize>, j: int)
    requires
        is_cycle(g, c),
        0 <= j < c.len(),
    ensures
        !buildable(g, c[j] as int),
{
    assert forall|k: nat| !#[trigger] built_after(g, k).contains(c[j] as int) by {
        cycle_is_not_built_by(g, c, j, k);
    }
}

proof fn cycle_is_not_built_by(g: Graph, c: Seq<usize>, j: int, k: nat)
    requires
        is_cycle(g, c),
        0 <= j < c.len(),
    ensures
        !built_after(g, k).contains(c[j] as int),
    decreases k,
{
    if k > 0 {
        let next = if j + 1 < c.len() {
            j + 1
        } else {
            0
        };
        cycle_is_not_built_by(g, c, next, (k - 1) as nat);
        let ds = g[c[j] as int];
        assert(ds.contains(c[next]));
        let p = choose|p: int| 0 <= p < ds.len() && ds[p] == c[next];
        assert(!built_after(g, (k - 1) as nat).contains(ds[p] as int));
    }
}

/// Modules whose dependencies are all built by some level are built by one level.
proof fn all_built_by_one_level(g: Graph, ds: Seq<usize>) -> (k: nat)
    requires
        forall|p: int| 0 <= p < ds.len() ==> buildable(g, #[trigger] ds[p] as int),
    ensures
        forall|p: int| 0 <= p < ds.len() ==> built_after(g, k).contains(#[trigger] ds[p] as int),
    decreases ds.len(),
{
    if ds.len() == 0 {
        0
    } else {
        let rest = ds.drop_last();
        assert forall|p: int| 0 <= p < rest.len() implies buildable(g, #[trigger] rest[p] as int) by {
            assert(rest[p] == ds[p]);
        }
        let a = all_built_by_one_level(g, rest);
        let x = ds[ds.len() - 1];
        assert(buildable(g, x as int));
        let b = choose|b: nat| #[trigger] built_after(g, b).contains(x as int);
        let k = if a < b {
            b
        } else {
            a
        };
        built_grows_far(g, a, k);
        built_grows_far(g, b, k);
        assert forall|p: int| 0 <= p < ds.len() implies built_after(g, k).contains(
            #[trigger] ds[p] as int,
        ) by {
            if p < rest.len() {
                assert(rest[p] == ds[p]);
            }
        }
        k
    }
}

proof fn first_blocked_is_member(g: Graph, ds: Seq<usize>)
    ensures
        match first_blocked(g, ds) {
            Some(d) => ds.contains(d) && d < g.len() && !buildable(g, d as int),
            None => forall|p: int|
                0 <= p < ds.len() ==> (#[trigger] ds[p] < g.len() ==> buildable(g, ds[p] as int)),
        },
    decreases ds.len(),
{
    if ds.len() > 0 && !(ds[0] < g.len() && !buildable(g, ds[0] as int)) {
        let rest = ds.drop_first();
        first_blocked_is_member(g, rest);
        match first_blocked(g, rest) {
            Some(d) => {
                let p = choose|p: int| 0 <= p < rest.len() && rest[p] == d;
                assert(ds[p + 1] == d);
            },
            None => {
                assert forall|p: int|
                    0 <= p < ds.len() && #[trigger] ds[p] < g.len() implies buildable(
                    g,
                    ds[p] as int,
                ) by {
                    if p > 0 {
                        assert(rest[p - 1] == ds[p]);
                    }
                }
            },
        }
    } else if ds.len() > 0 {
        assert(ds.contains(ds[0]));
    }
}

/// In a well-formed graph a module that is never built has a dependency that is never
/// built.
proof fn blocked_depends_on_blocked(g: Graph, i: int)
    requires
        well_formed(g),
        0 <= i < g.len(),
        !buildable(g, i),
    ensures
        first_blocked(g, g[i]) is Some,
{
    first_blocked_is_member(g, g[i]);
    if first_blocked(g, g[i]) is None {
        assert forall|p: int| 0 <= p < g[i].len() implies buildable(g, #[trigger] g[i][p] as int) by {
            assert(g[i][p] < g.len());
        }
        let k = all_built_by_one_level(g, g[i]);
        assert(ready(g[i], built_after(g, k)));
        assert(built_after(g, k + 1).contains(i));
    }
}

/// What is named in place of the levels of a well-formed graph is a circle, written
/// from one of its modules back to that module.
pub proof fn named_cycle_is_a_cycle(g: Graph, ids: Seq<Ga>, t: Seq<char>) -> (c: Seq<usize>)
    requires
        well_formed(g),
        names_blocked(g, ids, t),
    ensures
        is_cycle(g, c),
        t == path_text(ids, c.push(c[0])),
{
    let p = choose|p: Seq<usize>| #[trigger]
        is_blocked_walk(g, p) && match first_blocked(g, g[p.last() as int]) {
            None => t == path_text(ids, p),
            Some(d) => exists|j: int|
                0 <= j < p.len() && p[j] == d && t == path_text(ids, #[trigger] p.skip(j).push(d)),
        };
    blocked_depends_on_blocked(g, p.last() as int);
    let d = first_blocked(g, g[p.last() as int])->0;
    let j = choose|j: int|
        0 <= j < p.len() && p[j] == d && t == path_text(ids, #[trigger] p.skip(j).push(d));
    let c = p.skip(j);
    assert(c[0] == d);
    assert forall|m: int| 0 <= m < c.len() implies #[trigger] c[m] < g.len() by {
        assert(c[m] == p[m + j]);
    }
    assert forall|m: int| 0 <= m < c.len() - 1 implies (#[trigger] g[c[m] as int]).contains(
        c[m + 1],
    ) by {
        assert(c[m] == p[m + j]);
        assert(first_blocked(g, g[p[m + j] as int]) == Some(p[m + j + 1]));
        first_blocked_is_member(g, g[p[m + j] as int]);
    }
    first_blocked_is_member(g, g[p.last() as int]);
    assert(c.last() == p.last());
    c
}

proof fn walk_closes(g: Graph, p: Seq<usize>) -> (c: Seq<usize>)
    requires
        well_formed(g),
        p.len() > 0,
        p.no_duplicates(),
        forall|j: int| 0 <= j < p.len() ==> #[trigger] p[j] < g.len(),
        !buildable(g, p.last() as int),
        forall|j: int| 0 <= j < p.len() - 1 ==> (#[trigger] g[p[j] as int]).contains(p[j + 1]),
    ensures
        is_cycle(g, c),
    decreases g.len() - p.len(),
{
    no_duplicates_bounds(p, g.len());
    blocked_depends_on_blocked(g, p.last() as int);
    first_blocked_is_member(g, g[p.last() as int]);
    let d = first_blocked(g, g[p.last() as int])->0;
    if p.contains(d) {
        let j = choose|j: int| 0 <= j < p.len() && p[j] == d;
        let c = p.skip(j);
        assert forall|m: int| 0 <= m < c.len() implies #[trigger] c[m] < g.len() by {
            assert(c[m] == p[m + j]);
        }
        assert forall|m: int| 0 <= m < c.len() - 1 implies (#[trigger] g[c[m] as int]).contains(
            c[m + 1],
        ) by {
            assert(c[m] == p[m + j]);
            assert(g[p[m + j] as int].contains(p[m + j + 1]));
        }
        assert(c.last() == p.last());
        c
    } else {
        let q = p.push(d);
        assert forall|j: int| 0 <= j < q.len() - 1 implies (#[trigger] g[q[j] as int]).contains(
            q[j + 1],
        ) by {
            if j < p.len() - 1 {
                assert(q[j] == p[j]);
                assert(g[p[j] as int].contains(p[j + 1]));
            }
        }
        no_duplicates_bounds(q, g.len());
        walk_closes(g, q)
    }
}

/// A well-formed graph has levels for all its modules exactly where it has no circle.
pub proof fn levels_exist_without_cycles(g: Graph)
    requires
        well_formed(g),
        g.len() <= usize::MAX,
    ensures
        (forall|i: int| 0 <= i < g.len() ==> #[trigger] buildable(g, i)) <==> !(exists|c: Seq<usize>|
            is_cycle(g, c)),
{
    if exists|c: Seq<usize>| is_cycle(g, c) {
        let c = choose|c: Seq<usize>| is_cycle(g, c);
        cycle_is_never_built(g, c, 0);
        assert(c[0] < g.len());
    }
    if exists|i: int| 0 <= i < g.len() && !#[trigger] buildable(g, i) {
        let i = choose|i: int| 0 <= i < g.len() && !#[trigger] buildable(g, i);
        let p = seq![i as usize];
        let c = walk_closes(g, p);
        assert(is_cycle(g, c));
    }
}

// ---------------------------------------------------------------------------
// Discovery
// ---------------------------------------------------------------------------

/// The model of [`PomFacts`].
pub struct PomModel {
    pub group_id: Option<Seq<char>>,
    pub parent_group_id: Option<Seq<char>>,
    pub artifact_id: Seq<char>,
    pub dependencies: Seq<Ga>,
    pub modules: Seq<Seq<char>>,
}

impl View for PomFacts {
    type V = PomModel;

    open spec fn view(&self) -> PomModel {
        PomModel {
            group_id: text::opt_text(self.group_id),
            parent_group_id: text::opt_text(self.parent_group_id),
            artifact_id: self.artifact_id@,
            dependencies: gas(self.dependencies@),
            modules: text::texts(self.modules@),
        }
    }
}

/// The model of a [`DiscoveredModule`].
pub struct DiscoveredModel {
    pub id: Ga,
    pub root: Seq<char>,
    pub dependency_gas: Seq<Ga>,
}

impl View for DiscoveredModule {
    type V = DiscoveredModel;

    open spec fn view(&self) -> DiscoveredModel {
        DiscoveredModel {
            id: self.id@,
            root: self.root@,
            dependency_gas: gas(self.dependency_gas@),
        }
    }
}

/// The model of a list of discovered modules.
pub open spec fn discovered_of(ds: Seq<DiscoveredModule>) -> Seq<DiscoveredModel> {
    ds.map_values(|d: DiscoveredModule| d@)
}

/// The model of a [`ReactorError`].
pub enum ReactorFault {
    Pom { path: Seq<char>, detail: Seq<char> },
    MissingArtifactId { path: Seq<char> },
    Cycle { path: Seq<char> },
}

impl View for ReactorError {
    type V = ReactorFault;

    open spec fn view(&self) -> ReactorFault {
        match self {
            ReactorError::Pom { path, detail } => ReactorFault::Pom {
                path: path@,
                detail: detail@,
            },
            ReactorError::MissingArtifactId { path } => ReactorFault::MissingArtifactId {
                path: path@,
            },
            ReactorError::Cycle { path } => ReactorFault::Cycle { path: path@ },
        }
    }
}

/// The model of what reading one `pom.xml` gave.
pub type PomRead = Result<PomModel, Seq<char>>;

/// The model of a list of reads.
pub open spec fn reads_of(rs: Seq<Result<PomFacts, String>>) -> Seq<PomRead> {
    rs.map_values(|r: Result<PomFacts, String>| read_of(r))
}

/// The model of one read.
pub open spec fn read_of(r: Result<PomFacts, String>) -> PomRead {
    match r {
        Ok(p) => Ok(p@),
        Err(e) => Err(e@),
    }
}

/// A directory whose `pom.xml` is still to be read, with the group it may inherit.
pub type Pending = (Seq<char>, Option<Seq<char>>);

/// The group of a module: its own, else its parent's, else the inherited one, else none.
pub open spec fn group_of(pom: PomModel, inherited: Option<Seq<char>>) -> Seq<char> {
    if pom.group_id is Some {
        pom.group_id->0
    } else if pom.parent_group_id is Some {
        pom.parent_group_id->0
    } else if inherited is Some {
        inherited->0
    } else {
        Seq::empty()
    }
}

/// The identities of which neither part is empty.
pub open spec fn complete_gas(ids: Seq<Ga>) -> Seq<Ga>
    decreases ids.len(),
{
    if ids.len() == 0 {
        Seq::empty()
    } else if ids.last().0.len() == 0 || ids.last().1.len() == 0 {
        complete_gas(ids.drop_last())
    } else {
        complete_gas(ids.drop_last()).push(ids.last())
    }
}

/// The module that a `pom.xml` describes.
pub open spec fn module_of(at: Pending, pom: PomModel) -> DiscoveredModel {
    DiscoveredModel {
        id: (group_of(pom, at.1), pom.artifact_id),
        root: at.0,
        dependency_gas: complete_gas(pom.dependencies),
    }
}

/// The directories of the non-empty entries of `<modules>`, in their order.
pub open spec fn children_of(root: Seq<char>, names: Seq<Seq<char>>, group: Seq<char>) -> Seq<Pending>
    decreases names.len(),
{
    if names.len() == 0 {
        Seq::empty()
    } else if names[0].len() == 0 {
        children_of(root, names.drop_first(), group)
    } else {
        seq![(paths::joined_path(root, names[0]), Some(group))] + children_of(
            root,
            names.drop_first(),
            group,
        )
    }
}

/// How far a discovery came with the reads that it was given.
pub enum Found {
    /// Every module, in the order of discovery; all reads were used.
    Done(Seq<DiscoveredModel>),
    /// A `pom.xml` could not be used.
    Failed(ReactorFault),
    /// The `pom.xml` at this path has to be read next.
    Short(Seq<char>),
    /// Reads were left over.
    Surplus,
}

/// What the discovery of the directories `todo` comes to with the reads `reads`. A
/// module's own modules come directly after it, before whatever else is to be done.
pub open spec fn discovery(todo: Seq<Pending>, reads: Seq<PomRead>) -> Found
    decreases reads.len(),
{
    if todo.len() == 0 {
        if reads.len() == 0 {
            Found::Done(Seq::empty())
        } else {
            Found::Surplus
        }
    } else if reads.len() == 0 {
        Found::Short(project::pom_of(todo[0].0))
    } else {
        let at = todo[0];
        match reads[0] {
            Err(detail) => Found::Failed(
                ReactorFault::Pom { path: project::pom_of(at.0), detail },
            ),
            Ok(pom) => if pom.artifact_id.len() == 0 {
                Found::Failed(ReactorFault::MissingArtifactId { path: project::pom_of(at.0) })
            } else {
                let children = children_of(at.0, pom.modules, group_of(pom, at.1));
                match discovery(children + todo.drop_first(), reads.drop_first()) {
                    Found::Done(rest) => Found::Done(seq![module_of(at, pom)] + rest),
                    other => other,
                }
            },
        }
    }
}

/// How far a discovery came.
#[derive(Debug)]
pub enum Discovery {
    /// Every module, in the order of discovery.
    Done(Vec<DiscoveredModule>),
    /// A `pom.xml` could not be used.
    Failed(ReactorError),
    /// The `pom.xml` at this path has to be read next.
    Short(String),
    /// Reads were left over.
    Surplus,
}

/// The model of a [`Discovery`].
pub open spec fn found_of(d: Discovery) -> Found {
    match d {
        Discovery::Done(ms) => Found::Done(discovered_of(ms@)),
        Discovery::Failed(e) => Found::Failed(e@),
        Discovery::Short(p) => Found::Short(p@),
        Discovery::Surplus => Found::Surplus,
    }
}

/// A directory that is still to be read, in executable form.
struct Todo {
    root: String,
    inherited: Option<String>,
}

/// A stack of directories as a list, the top first.
spec fn todo_list(stack: Seq<Todo>) -> Seq<Pending>
    decreases stack.len(),
{
    if stack.len() == 0 {
        Seq::empty()
    } else {
        seq![(stack.last().root@, text::opt_text(stack.last().inherited))] + todo_list(
            stack.drop_last(),
        )
    }
}

fn complete_dependencies(deps: &Vec<ModuleId>) -> (r: Vec<ModuleId>)
    ensures
        gas(r@) == complete_gas(gas(deps@)),
{
    let mut out: Vec<ModuleId> = Vec::new();
    let mut i: usize = 0;
    let ghost all = gas(deps@);
    assert(all.take(0) =~= Seq::empty());
    assert(gas(out@) =~= Seq::empty());
    while i < deps.len()
        invariant
            i <= deps@.len(),
            all == gas(deps@),
            gas(out@) == complete_gas(all.take(i as int)),
        decreases deps@.len() - i,
    {
        proof {
            assert(all.take(i + 1).drop_last() =~= all.take(i as int));
            assert(all.take(i + 1).last() == deps@[i as int]@);
        }
        if !(deps[i].group_id.as_str().is_empty() || deps[i].artifact_id.as_str().is_empty()) {
            let ghost before = gas(out@);
            let d = deps[i].copy();
            out.push(d);
            assert(gas(out@) =~= before.push(deps@[i as int]@));
        }
        i = i + 1;
    }
    assert(all.take(deps@.len() as int) =~= all);
    out
}

fn push_children(stack: &mut Vec<Todo>, root: &str, names: &Vec<String>, group: &str)
    ensures
        todo_list(final(stack)@) == children_of(root@, text::texts(names@), group@) + todo_list(
            old(stack)@,
        ),
{
    let ghost all = text::texts(names@);
    let ghost before = todo_list(stack@);
    let mut i: usize = names.len();
    proof {
        assert(all.skip(all.len() as int) =~= Seq::empty());
        assert(children_of(root@, all.skip(i as int), group@) + before =~= before);
    }
    while i > 0
        invariant
            i <= names@.len(),
            all == text::texts(names@),
            todo_list(stack@) == children_of(root@, all.skip(i as int), group@) + before,
        decreases i,
    {
        i = i - 1;
        let ghost rest = all.skip(i as int);
        proof {
            assert(rest.drop_first() =~= all.skip(i + 1));
            assert(rest[0] == names@[i as int]@);
        }
        if !names[i].as_str().is_empty() {
            let ghost shorter = stack@;
            let child = Todo {
                root: paths::join(root, names[i].as_str()),
                inherited: Some(group.to_owned()),
            };
            stack.push(child);
            proof {
                assert(stack@.drop_last() =~= shorter);
                assert(stack@.last() == child);
                assert(todo_list(stack@) =~= children_of(root@, rest, group@) + before);
            }
        }
    }
    assert(all.skip(0) =~= all);
}

/// The group of a module.
fn pom_group(pom: &PomFacts, inherited: &Option<String>) -> (r: String)
    ensures
        r@ == group_of(pom@, text::opt_text(*inherited)),
{
    match &pom.group_id {
        Some(g) => g.clone(),
        None => match &pom.parent_group_id {
            Some(g) => g.clone(),
            None => match inherited {
                Some(g) => g.clone(),
                None => String::new(),
            },
        },
    }
}

/// What the discovery below `project_root` comes to with the reads that were made so far,
/// in the order in which they were asked for.
pub fn discover_modules(project_root: &str, reads: &Vec<Result<PomFacts, String>>) -> (r: Discovery)
    ensures
        found_of(r) == discovery(seq![(project_root@, None::<Seq<char>>)], reads_of(reads@)),
{
    let ghost whole = discovery(seq![(project_root@, None::<Seq<char>>)], reads_of(reads@));
    let ghost all = reads_of(reads@);
    let mut out: Vec<DiscoveredModule> = Vec::new();
    let mut stack: Vec<Todo> = Vec::new();
    let first = Todo { root: project_root.to_owned(), inherited: None };
    stack.push(first);
    proof {
        reveal_with_fuel(todo_list, 2);
        assert(stack@.drop_last() =~= Seq::empty());
        assert(todo_list(stack@) =~= seq![(project_root@, None::<Seq<char>>)]);
        assert(all.skip(0) =~= all);
        assert(prefixed(discovered_of(out@), discovery(todo_list(stack@), all)) == whole) by {
            assert(discovered_of(out@) =~= Seq::empty());
            prefixed_by_nothing(discovery(todo_list(stack@), all));
        }
    }
    let mut i: usize = 0;
    while i < reads.len() && stack.len() > 0
        invariant
            i <= reads@.len(),
            all == reads_of(reads@),
            whole == discovery(seq![(project_root@, None::<Seq<char>>)], reads_of(reads@)),
            prefixed(discovered_of(out@), discovery(todo_list(stack@), all.skip(i as int)))
                == whole,
        decreases reads@.len() - i,
    {
        let ghost todo = todo_list(stack@);
        let ghost rest = all.skip(i as int);
        let ghost ghost_stack = stack@;
        let at = stack.pop().unwrap();
        let ghost pending = (at.root@, text::opt_text(at.inherited));
        proof {
            assert(ghost_stack.drop_last() =~= stack@);
            assert(todo[0] == pending);
            assert(todo.drop_first() =~= todo_list(stack@));
            assert(rest[0] == read_of(reads@[i as int]));
            assert(rest.drop_first() =~= all.skip(i + 1));
        }
        match &reads[i] {
            Err(detail) => {
                return Discovery::Failed(
                    ReactorError::Pom {
                        path: project::pom_path(at.root.as_str()),
                        detail: detail.clone(),
                    },
                );
            },
            Ok(pom) => {
                if pom.artifact_id.as_str().is_empty() {
                    return Discovery::Failed(
                        ReactorError::MissingArtifactId {
                            path: project::pom_path(at.root.as_str()),
                        },
                    );
                }
                let group = pom_group(pom, &at.inherited);
                push_children(&mut stack, at.root.as_str(), &pom.modules, group.as_str());
                let id = ModuleId { group_id: group, artifact_id: pom.artifact_id.clone() };
                let dependency_gas = complete_dependencies(&pom.dependencies);
                let module = DiscoveredModule { id, root: at.root, dependency_gas };
                let ghost before = discovered_of(out@);
                out.push(module);
                proof {
                    let m = module_of(pending, pom@);
                    assert(module@ == m);
                    assert(discovered_of(out@) =~= before.push(m));
                    let tail = discovery(todo_list(stack@), all.skip(i + 1));
                    prefixed_step(before, m, tail);
                }
            },
        }
        i = i + 1;
    }
    if stack.len() == 0 {
        if i < reads.len() {
            Discovery::Surplus
        } else {
            assert(discovered_of(out@) + Seq::empty() =~= discovered_of(out@));
            Discovery::Done(out)
        }
    } else {
        let ghost todo = todo_list(stack@);
        let at = stack.pop().unwrap();
        assert(todo[0].0 == at.root@);
        Discovery::Short(project::pom_path(at.root.as_str()))
    }
}

/// A discovery with modules in front.
spec fn prefixed(front: Seq<DiscoveredModel>, f: Found) -> Found {
    match f {
        Found::Done(ms) => Found::Done(front + ms),
        other => other,
    }
}

proof fn prefixed_by_nothing(f: Found)
    ensures
        prefixed(Seq::empty(), f) == f,
{
    match f {
        Found::Done(ms) => {
            assert(Seq::<DiscoveredModel>::empty() + ms =~= ms);
        },
        _ => {},
    }
}

proof fn prefixed_step(front: Seq<DiscoveredModel>, m: DiscoveredModel, f: Found)
    ensures
        prefixed(front.push(m), f) == prefixed(
            front,
            match f {
                Found::Done(rest) => Found::Done(seq![m] + rest),
                other => other,
            },
        ),
{
    match f {
        Found::Done(rest) => {
            assert(front.push(m) + rest =~= front + (seq![m] + rest));
        },
        _ => {},
    }
}

/// Discovery is depth first: what lies below the first directories is discovered
/// completely, in its order, before anything of the later ones.
pub proof fn discovery_is_depth_first(
    first: Seq<Pending>,
    later: Seq<Pending>,
    first_reads: Seq<PomRead>,
    later_reads: Seq<PomRead>,
    a: Seq<DiscoveredModel>,
    b: Seq<DiscoveredModel>,
)
    requires
        discovery(first, first_reads) == Found::Done(a),
        discovery(later, later_reads) == Found::Done(b),
    ensures
        discovery(first + later, first_reads + later_reads) == Found::Done(a + b),
    decreases first_reads.len(),
{
    if first.len() == 0 {
        assert(first + later =~= later);
        assert(first_reads + later_reads =~= later_reads);
        assert(a + b =~= b);
    } else {
        let at = first[0];
        let pom = first_reads[0]->Ok_0;
        let children = children_of(at.0, pom.modules, group_of(pom, at.1));
        let rest = discovery(children + first.drop_first(), first_reads.drop_first())->Done_0;
        discovery_is_depth_first(
            children + first.drop_first(),
            later,
            first_reads.drop_first(),
            later_reads,
            rest,
            b,
        );
        assert((first + later).drop_first() =~= first.drop_first() + later);
        assert((first_reads + later_reads).drop_first() =~= first_reads.drop_first() + later_reads);
        assert(children + (first.drop_first() + later) =~= (children + first.drop_first()) + later);
        assert(seq![module_of(at, pom)] + (rest + b) =~= (seq![module_of(at, pom)] + rest) + b);
    }
}

// ---------------------------------------------------------------------------
// The reactor
// ---------------------------------------------------------------------------

/// Whether no later module has the identity of module `j`.
pub open spec fn is_last_of_its_name(ds: Seq<DiscoveredModel>, j: int) -> bool {
    forall|l: int| j < l < ds.len() ==> (#[trigger] ds[l]).id != ds[j].id
}

/// Whether module `i` depends on module `j`: it names the identity of `j`, `j` is the last
/// module of that identity, and the two are not the same.
pub open spec fn is_edge(ds: Seq<DiscoveredModel>, i: int, j: int) -> bool {
    &&& j != i
    &&& is_last_of_its_name(ds, j)
    &&& ds[i].dependency_gas.contains(ds[j].id)
}

/// The modules below `m` that module `i` depends on, in ascending order.
pub open spec fn edge_list(ds: Seq<DiscoveredModel>, i: int, m: nat) -> Seq<usize>
    decreases m,
{
    if m == 0 {
        Seq::empty()
    } else if is_edge(ds, i, m - 1) {
        edge_list(ds, i, (m - 1) as nat).push((m - 1) as usize)
    } else {
        edge_list(ds, i, (m - 1) as nat)
    }
}

/// The dependency graph of the discovered modules.
pub open spec fn edges_of(ds: Seq<DiscoveredModel>) -> Graph {
    Seq::new(ds.len(), |i: int| edge_list(ds, i, ds.len()))
}

/// The identities of the discovered modules.
pub open spec fn names_of(ds: Seq<DiscoveredModel>) -> Seq<Ga> {
    ds.map_values(|d: DiscoveredModel| d.id)
}

/// Whether `r` is the reactor of the discovered modules for a goal.
pub open spec fn is_reactor_of(
    r: Reactor,
    ds: Seq<DiscoveredModel>,
    phase: MavenPhase,
    include_clean: bool,
) -> bool {
    &&& r.modules@.len() == ds.len()
    &&& forall|i: int| 0 <= i < ds.len() ==> is_node_of(#[trigger] r.modules@[i], ds, i, phase, include_clean)
    &&& are_levels(edges_of(ds), r.topo_levels@)
}

/// Whether `m` is module `i` of the discovered modules for a goal.
pub open spec fn is_node_of(
    m: ModuleNode,
    ds: Seq<DiscoveredModel>,
    i: int,
    phase: MavenPhase,
    include_clean: bool,
) -> bool {
    &&& m.id@ == ds[i].id
    &&& m.root@ == ds[i].root
    &&& m.action_graph@ == action_graph::lifecycle_model(phase, ds[i].root, include_clean)
    &&& m.depends_on@ == edge_list(ds, i, ds.len())
}

/// The last module with the identity `id`.
fn last_of_name(ds: &Vec<DiscoveredModule>, id: &ModuleId) -> (r: Option<usize>)
    ensures
        match r {
            Some(j) => j < ds@.len() && ds@[j as int].id@ == id@ && is_last_of_its_name(
                discovered_of(ds@),
                j as int,
            ),
            None => forall|l: int| 0 <= l < ds@.len() ==> (#[trigger] ds@[l]).id@ != id@,
        },
{
    let ghost m = discovered_of(ds@);
    let mut j: usize = ds.len();
    while j > 0
        invariant
            j <= ds@.len(),
            m == discovered_of(ds@),
            forall|l: int| j <= l < ds@.len() ==> (#[trigger] ds@[l]).id@ != id@,
        decreases j,
    {
        j = j - 1;
        if ds[j].id.same(id) {
            assert forall|l: int| j < l < m.len() implies (#[trigger] m[l]).id != m[j as int].id by {
                assert(m[l] == ds@[l]@);
            }
            return Some(j);
        }
    }
    None
}

/// The modules that module `i` depends on, in ascending order.
fn dependencies_of(ds: &Vec<DiscoveredModule>, i: usize) -> (r: Vec<usize>)
    requires
        i < ds@.len(),
    ensures
        r@ == edge_list(discovered_of(ds@), i as int, ds@.len()),
{
    let ghost m = discovered_of(ds@);
    let n: usize = ds.len();
    let mut flags: Vec<bool> = Vec::new();
    let mut f: usize = 0;
    while f < n
        invariant
            f <= n,
            flags@.len() == f,
            forall|j: int| 0 <= j < f ==> !#[trigger] flags@[j],
        decreases n - f,
    {
        flags.push(false);
        f = f + 1;
    }
    let wanted = &ds[i].dependency_gas;
    let ghost names = gas(wanted@);
    assert(names == m[i as int].dependency_gas);
    let mut k: usize = 0;
    assert(names.take(0) =~= Seq::empty());
    while k < wanted.len()
        invariant
            k <= wanted@.len(),
            i < n,
            n == ds@.len(),
            m == discovered_of(ds@),
            names == gas(wanted@),
            flags@.len() == n,
            forall|j: int|
                0 <= j < n ==> (#[trigger] flags@[j] <==> (j != i && is_last_of_its_name(m, j)
                    && names.take(k as int).contains(m[j].id))),
        decreases wanted@.len() - k,
    {
        let ghost before = flags@;
        let ghost shorter = names.take(k as int);
        let ghost longer = names.take(k + 1);
        let ghost id = wanted@[k as int]@;
        proof {
            assert(longer =~= shorter.push(id));
            assert forall|x: Ga| #[trigger] longer.contains(x) <==> (shorter.contains(x) || x == id) by {
                assert(longer[k as int] == id);
                if shorter.contains(x) {
                    let p = choose|p: int| 0 <= p < shorter.len() && shorter[p] == x;
                    assert(longer[p] == x);
                }
                if longer.contains(x) {
                    let p = choose|p: int| 0 <= p < longer.len() && longer[p] == x;
                    if p < k {
                        assert(shorter[p] == x);
                    }
                }
            }
        }
        match last_of_name(ds, &wanted[k]) {
            Some(j) => {
                assert(m[j as int] == ds@[j as int]@);
                if j != i {
                    flags.set(j, true);
                }
                proof {
                    assert forall|l: int| 0 <= l < n implies (#[trigger] flags@[l] <==> (l != i
                        && is_last_of_its_name(m, l) && longer.contains(m[l].id))) by {
                        if l != j && m[l].id == id && is_last_of_its_name(m, l) {
                            if l < j {
                                assert(m[j as int].id != m[l].id);
                            } else {
                                assert(m[l].id != m[j as int].id);
                            }
                        }
                    }
                }
            },
            None => {
                proof {
                    assert forall|l: int| 0 <= l < n implies m[l].id != id by {
                        assert(m[l] == ds@[l]@);
                    }
                }
            },
        }
        k = k + 1;
    }
    assert(names.take(wanted@.len() as int) =~= names);
    let mut out: Vec<usize> = Vec::new();
    let mut j: usize = 0;
    while j < n
        invariant
            j <= n,
            i < n,
            n == m.len(),
            flags@.len() == n,
            names == m[i as int].dependency_gas,
            forall|l: int|
                0 <= l < n ==> (#[trigger] flags@[l] <==> (l != i && is_last_of_its_name(m, l)
                    && names.contains(m[l].id))),
            out@ == edge_list(m, i as int, j as nat),
        decreases n - j,
    {
        assert(flags@[j as int] == is_edge(m, i as int, j as int));
        if flags[j] {
            out.push(j);
        }
        j = j + 1;
    }
    out
}

impl Reactor {
    /// The reactor of the discovered modules for a goal, or a circle among them.
    pub fn from_discovered(
        discovered: Vec<DiscoveredModule>,
        phase: MavenPhase,
        include_clean: bool,
    ) -> (r: Result<Reactor, ReactorError>)
        ensures
            match r {
                Ok(reactor) => is_reactor_of(
                    reactor,
                    discovered_of(discovered@),
                    phase,
                    include_clean,
                ),
                Err(ReactorError::Cycle { path }) => names_blocked(
                    edges_of(discovered_of(discovered@)),
                    names_of(discovered_of(discovered@)),
                    path@,
                ),
                Err(_) => false,
            },
            r is Ok <==> forall|i: int|
                0 <= i < discovered@.len() ==> #[trigger] buildable(
                    edges_of(discovered_of(discovered@)),
                    i,
                ),
    {
        let ghost m = discovered_of(discovered@);
        let mut modules: Vec<ModuleNode> = Vec::new();
        let mut i: usize = 0;
        while i < discovered.len()
            invariant
                i <= discovered@.len(),
                m == discovered_of(discovered@),
                modules@.len() == i,
                forall|k: int|
                    0 <= k < i ==> is_node_of(#[trigger] modules@[k], m, k, phase, include_clean),
            decreases discovered@.len() - i,
        {
            let depends_on = dependencies_of(&discovered, i);
            let root = discovered[i].root.clone();
            let graph = action_graph::lifecycle_graph(phase, root.clone(), include_clean);
            let node = ModuleNode {
                id: discovered[i].id.copy(),
                root,
                action_graph: graph,
                depends_on,
            };
            assert(m[i as int] == discovered@[i as int]@);
            modules.push(node);
            i = i + 1;
        }
        proof {
            assert(graph_of(modules@) =~= edges_of(m));
            assert(ids_of(modules@) =~= names_of(m));
        }
        match kahn_topo_levels(&modules) {
            Ok(topo_levels) => Ok(Reactor { modules, topo_levels }),
            Err(e) => Err(e),
        }
    }

    /// The reactor of the project at `project_root` for a goal, from the reads that
    /// [`discover_modules`] asked for, in the order in which it asked.
    pub fn from_project_root(
        project_root: &str,
        phase: MavenPhase,
        include_clean: bool,
        reads: &Vec<Result<PomFacts, String>>,
    ) -> (r: Result<Reactor, ReactorError>)
        requires
            ({
                let f = discovery(seq![(project_root@, None::<Seq<char>>)], reads_of(reads@));
                f is Done || f is Failed
            }),
        ensures
            match discovery(seq![(project_root@, None::<Seq<char>>)], reads_of(reads@)) {
                Found::Failed(e) => r matches Err(x) && x@ == e,
                Found::Done(ds) => match r {
                    Ok(reactor) => is_reactor_of(reactor, ds, phase, include_clean) && forall|i: int|
                        0 <= i < ds.len() ==> #[trigger] buildable(edges_of(ds), i),
                    Err(ReactorError::Cycle { path }) => names_blocked(
                        edges_of(ds),
                        names_of(ds),
                        path@,
                    ) && !(forall|i: int|
                        0 <= i < ds.len() ==> #[trigger] buildable(edges_of(ds), i)),
                    Err(_) => false,
                },
                _ => false,
            },
    {
        let d = discover_modules(project_root, reads);
        let ghost f = found_of(d);
        match d {
            Discovery::Done(ds) => {
                let ghost m = discovered_of(ds@);
                assert(f == Found::Done(m));
                assert(m.len() == ds@.len());
                Reactor::from_discovered(ds, phase, include_clean)
            },
            Discovery::Failed(e) => Err(e),
            Discovery::Short(_) => vstd::pervasive::unreached(),
            Discovery::Surplus => vstd::pervasive::unreached(),
        }
    }

    /// Whether the project has one module only.
    pub fn is_single_module(&self) -> (r: bool)
        ensures
            r == (self.modules@.len() == 1),
    {
        self.modules.len() == 1
    }
}

/// The text of an error.
pub open spec fn fault_text(e: ReactorFault) -> Seq<char> {
    match e {
        ReactorFault::Pom { path, detail } => "BAR-REACTOR-POM: failed to read POM at "@ + path
            + ": "@ + detail,
        ReactorFault::MissingArtifactId { path } => "BAR-REACTOR-POM: module at "@ + path
            + " has no <artifactId>"@,
        ReactorFault::Cycle { path } =>
            "BAR-REACTOR-CYCLE: inter-module dependency cycle detected: "@ + path,
    }
}

impl ReactorError {
    /// The error as the user sees it.
    pub fn to_message(&self) -> (r: String)
        ensures
            r@ == fault_text(self@),
    {
        match self {
            ReactorError::Pom { path, detail } => {
                let mut out = "BAR-REACTOR-POM: failed to read POM at ".to_owned();
                out.append(path.as_str());
                out.append(": ");
                out.append(detail.as_str());
                out
            },
            ReactorError::MissingArtifactId { path } => {
                let mut out = "BAR-REACTOR-POM: module at ".to_owned();
                out.append(path.as_str());
                out.append(" has no <artifactId>");
                out
            },
            ReactorError::Cycle { path } => {
                let mut out =
                    "BAR-REACTOR-CYCLE: inter-module dependency cycle detected: ".to_owned();
                out.append(path.as_str());
                out
            },
        }
    }
}

proof fn edge_list_is_ascending(ds: Seq<DiscoveredModel>, i: int, m: nat)
    requires
        m <= ds.len() <= usize::MAX,
    ensures
        forall|k: int| 0 <= k < edge_list(ds, i, m).len() ==> #[trigger] edge_list(ds, i, m)[k] < m,
        ascending(edge_list(ds, i, m)),
    decreases m,
{
    if m > 0 {
        edge_list_is_ascending(ds, i, (m - 1) as nat);
    }
}

/// The dependency graph of discovered modules is well-formed, so that a refusal always
/// names a circle.
pub proof fn discovered_graph_is_well_formed(ds: Seq<DiscoveredModel>)
    requires
        ds.len() <= usize::MAX,
    ensures
        well_formed(edges_of(ds)),
{
    let g = edges_of(ds);
    assert forall|i: int| 0 <= i < g.len() implies (#[trigger] g[i]).no_duplicates() && forall|k: int|
        0 <= k < g[i].len() ==> #[trigger] g[i][k] < g.len() by {
        edge_list_is_ascending(ds, i, ds.len());
    }
}

/// A project of one module without modules of its own has one level with that module.
pub proof fn single_module_has_one_level(ds: Seq<DiscoveredModel>, levels: Seq<Vec<usize>>)
    requires
        ds.len() == 1,
        are_levels(edges_of(ds), levels),
    ensures
        levels.len() == 1,
        levels[0]@ == seq![0usize],
{
    let g = edges_of(ds);
    reveal_with_fuel(edge_list, 2);
    reveal_with_fuel(built_after, 3);
    assert(g[0] =~= Seq::<usize>::empty());
    assert(built_after(g, 1).contains(0));
    assert(built_after(g, levels.len()).contains(0));
    if levels.len() > 1 {
        assert(is_level(g, 1, levels[1]@));
        let x = levels[1]@[0];
        assert(levels[1]@.contains(x));
        assert(built_after(g, 2).contains(x as int));
        assert(x == 0);
    }
    assert(is_level(g, 0, levels[0]@));
    assert(levels[0]@.contains(0));
    if levels[0]@.len() > 1 {
        assert(levels[0]@.contains(levels[0]@[1]));
        assert(levels[0]@[0] < levels[0]@[1]);
    }
    assert(levels[0]@.contains(levels[0]@[0]));
    assert(levels[0]@ =~= seq![0usize]);
}

// ---------------------------------------------------------------------------
// Laws of a project
// ---------------------------------------------------------------------------

proof fn edge_list_holds(ds: Seq<DiscoveredModel>, i: int, m: nat, j: usize)
    requires
        m <= ds.len() <= usize::MAX,
    ensures
        edge_list(ds, i, m).contains(j) <==> j < m && is_edge(ds, i, j as int),
    decreases m,
{
    if m > 0 {
        let below = (m - 1) as nat;
        edge_list_holds(ds, i, below, j);
        let short = edge_list(ds, i, below);
        let long = edge_list(ds, i, m);
        if is_edge(ds, i, m - 1) {
            assert(long == short.push((m - 1) as usize));
            assert(long[short.len() as int] == (m - 1) as usize);
            if short.contains(j) {
                let p = choose|p: int| 0 <= p < short.len() && short[p] == j;
                assert(long[p] == j);
            }
            if long.contains(j) {
                let p = choose|p: int| 0 <= p < long.len() && long[p] == j;
                if p < short.len() {
                    assert(short[p] == j);
                }
            }
        }
    }
}

/// A module depends on the modules of the project that its dependencies name, wherever they
/// stand in the list, and on nothing else. Of several modules with one identity the last one
/// is meant. No module depends on itself.
pub proof fn named_modules_are_the_dependencies(
    r: Reactor,
    ds: Seq<DiscoveredModel>,
    phase: MavenPhase,
    include_clean: bool,
    i: int,
    j: usize,
)
    requires
        is_reactor_of(r, ds, phase, include_clean),
        0 <= i < ds.len(),
    ensures
        r.modules@[i].depends_on@.contains(j) <==> {
            &&& j < ds.len()
            &&& j != i
            &&& ds[i].dependency_gas.contains(ds[j as int].id)
            &&& forall|l: int| j < l < ds.len() ==> (#[trigger] ds[l]).id != ds[j as int].id
        },
        ascending(r.modules@[i].depends_on@),
{
    assert(is_node_of(r.modules@[i], ds, i, phase, include_clean));
    assert(r.modules@.len() == r.modules.len());
    edge_list_holds(ds, i, ds.len(), j);
    edge_list_is_ascending(ds, i, ds.len());
}

/// Whether no two modules have one identity.
pub open spec fn names_differ(ds: Seq<DiscoveredModel>) -> bool {
    forall|a: int, b: int|
        0 <= a < ds.len() && 0 <= b < ds.len() && a != b ==> (#[trigger] ds[a]).id != (#[trigger] ds[b]).id
}

/// Where all identities differ: a module that names another one, before or after it in the
/// list, depends on it and stands in a later level; and it depends on no module that it does
/// not name.
pub proof fn named_sibling_is_built_first(
    r: Reactor,
    ds: Seq<DiscoveredModel>,
    phase: MavenPhase,
    include_clean: bool,
    i: int,
    j: int,
)
    requires
        is_reactor_of(r, ds, phase, include_clean),
        names_differ(ds),
        0 <= i < ds.len(),
        0 <= j < ds.len(),
        i != j,
    ensures
        r.modules@[i].depends_on@.contains(j as usize) <==> ds[i].dependency_gas.contains(
            ds[j].id,
        ),
        ds[i].dependency_gas.contains(ds[j].id) ==> forall|k: int|
            0 <= k < r.topo_levels@.len() && (#[trigger] r.topo_levels@[k])@.contains(i as usize)
                ==> exists|m: int|
                0 <= m < k && (#[trigger] r.topo_levels@[m])@.contains(j as usize),
{
    assert(r.modules@.len() == r.modules.len());
    named_modules_are_the_dependencies(r, ds, phase, include_clean, i, j as usize);
    assert(is_node_of(r.modules@[i], ds, i, phase, include_clean));
    if ds[i].dependency_gas.contains(ds[j].id) {
        let g = edges_of(ds);
        assert(g[i] == r.modules@[i].depends_on@);
        assert forall|k: int|
            0 <= k < r.topo_levels@.len() && (#[trigger] r.topo_levels@[k])@.contains(
                i as usize,
            ) implies exists|m: int|
            0 <= m < k && (#[trigger] r.topo_levels@[m])@.contains(j as usize) by {
            dependencies_come_first(g, r.topo_levels@, k, i as usize, j as usize);
        }
    }
}

/// In which order the modules are listed does not change which of them depends on which.
pub proof fn order_of_modules_does_not_matter(
    r: Reactor,
    ds: Seq<DiscoveredModel>,
    other: Reactor,
    es: Seq<DiscoveredModel>,
    phase: MavenPhase,
    include_clean: bool,
    i: int,
    j: int,
    a: int,
    b: int,
)
    requires
        is_reactor_of(r, ds, phase, include_clean),
        is_reactor_of(other, es, phase, include_clean),
        names_differ(ds),
        names_differ(es),
        0 <= i < ds.len() && 0 <= j < ds.len() && i != j,
        0 <= a < es.len() && 0 <= b < es.len() && a != b,
        ds[i] == es[a],
        ds[j] == es[b],
    ensures
        r.modules@[i].depends_on@.contains(j as usize) == other.modules@[a].depends_on@.contains(
            b as usize,
        ),
{
    named_sibling_is_built_first(r, ds, phase, include_clean, i, j);
    named_sibling_is_built_first(other, es, phase, include_clean, a, b);
}

/// Modules that name each other in a circle are refused: not all of them can be built.
pub proof fn circle_of_names_is_refused(ds: Seq<DiscoveredModel>, c: Seq<int>)
    requires
        ds.len() <= usize::MAX,
        names_differ(ds),
        c.len() >= 2,
        forall|k: int| 0 <= k < c.len() ==> 0 <= #[trigger] c[k] < ds.len(),
        forall|k: int|
            0 <= k < c.len() - 1 ==> c[k] != c[k + 1] && (#[trigger] ds[c[k]]).dependency_gas.contains(
                ds[c[k + 1]].id,
            ),
        c.last() != c[0] && ds[c.last()].dependency_gas.contains(ds[c[0]].id),
    ensures
        !(forall|i: int| 0 <= i < ds.len() ==> #[trigger] buildable(edges_of(ds), i)),
{
    let g = edges_of(ds);
    let walk = Seq::new(c.len(), |k: int| c[k] as usize);
    assert forall|k: int| 0 <= k < walk.len() implies #[trigger] walk[k] < g.len() by {
        let x = c[k];
    }
    assert forall|k: int| 0 <= k < walk.len() - 1 implies (#[trigger] g[walk[k] as int]).contains(
        walk[k + 1],
    ) by {
        let x = c[k];
        let y = c[k + 1];
        let d = ds[c[k]];
        edge_list_holds(ds, x, ds.len(), y as usize);
    }
    assert(g[walk.last() as int].contains(walk[0])) by {
        let x = c.last();
        assert(c[c.len() - 1] == x);
        let y = c[0];
        edge_list_holds(ds, x, ds.len(), y as usize);
    }
    assert(is_cycle(g, walk));
    cycle_is_never_built(g, walk, 0);
    let x = c[0];
    assert(!buildable(g, x));
}

/// A module that does not stand in the first level has a dependency in the level directly
/// before its own: no module waits longer than it has to.
pub proof fn modules_start_as_early_as_they_can(
    g: Graph,
    levels: Seq<Vec<usize>>,
    k: int,
    i: usize,
)
    requires
        are_levels(g, levels),
        well_formed(g),
        0 < k < levels.len(),
        levels[k]@.contains(i),
    ensures
        exists|d: usize| #[trigger] g[i as int].contains(d) && levels[k - 1]@.contains(d),
{
    let below = (k - 1) as nat;
    assert(is_level(g, k as nat, levels[k]@));
    assert(is_level(g, below, levels[k - 1]@));
    let ds = g[i as int];
    assert(!ready(ds, built_after(g, below)));
    assert(ready(ds, built_after(g, k as nat)));
    let p = choose|p: int| 0 <= p < ds.len() && !built_after(g, below).contains(#[trigger] ds[p] as int);
    assert(ds.contains(ds[p]));
    assert(built_after(g, k as nat).contains(ds[p] as int));
    assert(levels[k - 1]@.contains(ds[p]));
}

proof fn complete_gas_hold(ids: Seq<Ga>, x: Ga)
    ensures
        complete_gas(ids).contains(x) <==> ids.contains(x) && x.0.len() > 0 && x.1.len() > 0,
    decreases ids.len(),
{
    if ids.len() > 0 {
        let rest = ids.drop_last();
        complete_gas_hold(rest, x);
        let short = complete_gas(rest);
        let long = complete_gas(ids);
        assert(ids.contains(x) <==> rest.contains(x) || ids.last() == x) by {
            if rest.contains(x) {
                let p = choose|p: int| 0 <= p < rest.len() && rest[p] == x;
                assert(ids[p] == x);
            }
            if ids.contains(x) {
                let p = choose|p: int| 0 <= p < ids.len() && ids[p] == x;
                if p < rest.len() {
                    assert(rest[p] == x);
                }
            }
        }
        if !(ids.last().0.len() == 0 || ids.last().1.len() == 0) {
            assert(long == short.push(ids.last()));
            assert(long[short.len() as int] == ids.last());
            if short.contains(x) {
                let p = choose|p: int| 0 <= p < short.len() && short[p] == x;
                assert(long[p] == x);
            }
            if long.contains(x) {
                let p = choose|p: int| 0 <= p < long.len() && long[p] == x;
                if p < short.len() {
                    assert(short[p] == x);
                }
            }
        }
    }
}

proof fn children_are_entries(
    root: Seq<char>,
    names: Seq<Seq<char>>,
    group: Seq<char>,
    p: Pending,
)
    ensures
        children_of(root, names, group).contains(p) <==> p.1 == Some(group) && exists|n: Seq<char>|
            #[trigger] names.contains(n) && n.len() > 0 && p.0 == paths::joined_path(root, n),
    decreases names.len(),
{
    let all = children_of(root, names, group);
    if names.len() > 0 {
        let rest = names.drop_first();
        children_are_entries(root, rest, group, p);
        let later = children_of(root, rest, group);
        assert forall|n: Seq<char>| #[trigger] names.contains(n) <==> rest.contains(n) || n
            == names[0] by {
            if names.contains(n) {
                let k = choose|k: int| 0 <= k < names.len() && names[k] == n;
                if k > 0 {
                    assert(rest[k - 1] == n);
                }
            }
            if rest.contains(n) {
                let k = choose|k: int| 0 <= k < rest.len() && rest[k] == n;
                assert(names[k + 1] == n);
            }
            assert(names[0] == names.first());
        }
        if names[0].len() > 0 {
            let head = (paths::joined_path(root, names[0]), Some(group));
            assert(all == seq![head] + later);
            assert(all[0] == head);
            if later.contains(p) {
                let k = choose|k: int| 0 <= k < later.len() && later[k] == p;
                assert(all[k + 1] == p);
            }
            if all.contains(p) {
                let k = choose|k: int| 0 <= k < all.len() && all[k] == p;
                if k > 0 {
                    assert(later[k - 1] == p);
                } else {
                    assert(names.contains(names[0]));
                }
            }
        }
        assert(names.contains(names[0]));
        if p.1 == Some(group) && exists|n: Seq<char>| #[trigger]
            names.contains(n) && n.len() > 0 && p.0 == paths::joined_path(root, n) {
            let n = choose|n: Seq<char>| #[trigger]
                names.contains(n) && n.len() > 0 && p.0 == paths::joined_path(root, n);
            if n == names[0] {
                assert(all[0] == p);
            } else {
                assert(rest.contains(n));
                assert(later.contains(p));
            }
            assert(all.contains(p));
        }
        if all.contains(p) && later.contains(p) {
            let n = choose|n: Seq<char>| #[trigger]
                rest.contains(n) && n.len() > 0 && p.0 == paths::joined_path(root, n);
            assert(names.contains(n));
        }
    }
}

/// Whether `m` is the module that a `pom.xml` describes, in a directory that may inherit the
/// group `inherited`: the group is its own, else its parent's, else the inherited one, else
/// none; the dependencies are those that name both a group and an artifact.
pub open spec fn describes(
    pom: PomModel,
    root: Seq<char>,
    inherited: Option<Seq<char>>,
    m: DiscoveredModel,
) -> bool {
    &&& m.root == root
    &&& m.id.1 == pom.artifact_id
    &&& pom.group_id matches Some(g) ==> m.id.0 == g
    &&& pom.group_id is None ==> (pom.parent_group_id matches Some(g) ==> m.id.0 == g)
    &&& pom.group_id is None && pom.parent_group_id is None ==> (inherited matches Some(g)
        ==> m.id.0 == g)
    &&& pom.group_id is None && pom.parent_group_id is None && inherited is None ==> m.id.0.len()
        == 0
    &&& forall|x: Ga| #[trigger]
        m.dependency_gas.contains(x) <==> pom.dependencies.contains(x) && x.0.len() > 0 && x.1.len()
            > 0
}

/// The modules that are discovered are those of the reads, one for each and in their order.
/// The first lies in the directory that was asked for. Every other lies in a directory that an
/// earlier module names under `<modules>`, and inherits the group of that module.
pub proof fn modules_are_those_of_the_poms(
    todo: Seq<Pending>,
    reads: Seq<PomRead>,
    ds: Seq<DiscoveredModel>,
    k: int,
)
    requires
        discovery(todo, reads) == Found::Done(ds),
        0 <= k < ds.len(),
    ensures
        ds.len() == reads.len(),
        reads[k] matches Ok(pom) && pom.artifact_id.len() > 0,
        k == 0 ==> describes(reads[0]->Ok_0, todo[0].0, todo[0].1, ds[0]),
        (exists|t: int|
            0 <= t < todo.len() && describes(
                reads[k]->Ok_0,
                (#[trigger] todo[t]).0,
                todo[t].1,
                ds[k],
            )) || (exists|p: int, name: Seq<char>|
            0 <= p < k && #[trigger] (reads[p]->Ok_0).modules.contains(name) && name.len() > 0
                && describes(
                reads[k]->Ok_0,
                paths::joined_path(ds[p].root, name),
                Some(ds[p].id.0),
                ds[k],
            )),
    decreases reads.len(),
{
    let at = todo[0];
    let pom = reads[0]->Ok_0;
    let children = children_of(at.0, pom.modules, group_of(pom, at.1));
    let later = children + todo.drop_first();
    let rest = discovery(later, reads.drop_first())->Done_0;
    assert(ds == seq![module_of(at, pom)] + rest);
    assert(describes(pom, at.0, at.1, ds[0])) by {
        assert forall|x: Ga| #[trigger] ds[0].dependency_gas.contains(x) <==> pom.dependencies.contains(
            x,
        ) && x.0.len() > 0 && x.1.len() > 0 by {
            complete_gas_hold(pom.dependencies, x);
        }
    }
    if rest.len() == 0 {
        discovered_as_many_as_read(later, reads.drop_first(), rest);
    }
    if k == 0 {
        discovered_as_many_as_read(todo, reads, ds);
        assert(describes(reads[k]->Ok_0, todo[0].0, todo[0].1, ds[k]));
    } else {
        modules_are_those_of_the_poms(later, reads.drop_first(), rest, k - 1);
        let shorter = reads.drop_first();
        assert(rest[k - 1] == ds[k]);
        assert(shorter[k - 1] == reads[k]);
        if exists|t: int|
            0 <= t < later.len() && describes(
                shorter[k - 1]->Ok_0,
                (#[trigger] later[t]).0,
                later[t].1,
                rest[k - 1],
            ) {
            let t = choose|t: int|
                0 <= t < later.len() && describes(
                    shorter[k - 1]->Ok_0,
                    (#[trigger] later[t]).0,
                    later[t].1,
                    rest[k - 1],
                );
            if t < children.len() {
                assert(children[t] == later[t]);
                assert(children.contains(later[t]));
                children_are_entries(at.0, pom.modules, group_of(pom, at.1), later[t]);
                let name = choose|n: Seq<char>| #[trigger]
                    pom.modules.contains(n) && n.len() > 0 && later[t].0 == paths::joined_path(
                        at.0,
                        n,
                    );
                assert((reads[0]->Ok_0).modules.contains(name));
            } else {
                let u = t - children.len() + 1;
                assert(todo[u] == later[t]);
            }
        } else {
            let (p, name) = choose|p: int, name: Seq<char>|
                0 <= p < k - 1 && #[trigger] (shorter[p]->Ok_0).modules.contains(name) && name.len()
                    > 0 && describes(
                    shorter[k - 1]->Ok_0,
                    paths::joined_path(rest[p].root, name),
                    Some(rest[p].id.0),
                    rest[k - 1],
                );
            assert(reads[p + 1] == shorter[p]);
            assert(ds[p + 1] == rest[p]);
            assert((reads[p + 1]->Ok_0).modules.contains(name));
        }
    }
}

proof fn discovered_as_many_as_read(
    todo: Seq<Pending>,
    reads: Seq<PomRead>,
    ds: Seq<DiscoveredModel>,
)
    requires
        discovery(todo, reads) == Found::Done(ds),
    ensures
        ds.len() == reads.len(),
    decreases reads.len(),
{
    if todo.len() > 0 {
        let at = todo[0];
        let pom = reads[0]->Ok_0;
        let children = children_of(at.0, pom.modules, group_of(pom, at.1));
        let later = children + todo.drop_first();
        let rest = discovery(later, reads.drop_first())->Done_0;
        discovered_as_many_as_read(later, reads.drop_first(), rest);
    }
}

/// Every directory that was asked for or is named under `<modules>` is discovered.
pub proof fn no_module_is_left_out(
    todo: Seq<Pending>,
    reads: Seq<PomRead>,
    ds: Seq<DiscoveredModel>,
    k: int,
    name: Seq<char>,
)
    requires
        discovery(todo, reads) == Found::Done(ds),
        0 <= k < ds.len(),
        (reads[k]->Ok_0).modules.contains(name),
        name.len() > 0,
    ensures
        exists|m: int|
            k < m < ds.len() && (#[trigger] ds[m]).root == paths::joined_path(ds[k].root, name),
    decreases reads.len(),
{
    let at = todo[0];
    let pom = reads[0]->Ok_0;
    let group = group_of(pom, at.1);
    let children = children_of(at.0, pom.modules, group);
    let later = children + todo.drop_first();
    let shorter = reads.drop_first();
    let rest = discovery(later, shorter)->Done_0;
    assert(ds == seq![module_of(at, pom)] + rest);
    discovered_as_many_as_read(todo, reads, ds);
    if k == 0 {
        let p: Pending = (paths::joined_path(at.0, name), Some(group));
        children_are_entries(at.0, pom.modules, group, p);
        let t = choose|t: int| 0 <= t < children.len() && children[t] == p;
        assert(later[t] == p);
        todo_is_discovered(later, shorter, rest, t);
        let m = choose|m: int| 0 <= m < rest.len() && (#[trigger] rest[m]).root == later[t].0;
        assert(ds[m + 1] == rest[m]);
    } else {
        assert(shorter[k - 1] == reads[k]);
        assert(rest[k - 1] == ds[k]);
        no_module_is_left_out(later, shorter, rest, k - 1, name);
        let m = choose|m: int|
            k - 1 < m < rest.len() && (#[trigger] rest[m]).root == paths::joined_path(
                rest[k - 1].root,
                name,
            );
        assert(ds[m + 1] == rest[m]);
    }
}

proof fn todo_is_discovered(
    todo: Seq<Pending>,
    reads: Seq<PomRead>,
    ds: Seq<DiscoveredModel>,
    t: int,
)
    requires
        discovery(todo, reads) == Found::Done(ds),
        0 <= t < todo.len(),
    ensures
        exists|m: int| 0 <= m < ds.len() && (#[trigger] ds[m]).root == todo[t].0,
    decreases reads.len(),
{
    let at = todo[0];
    let pom = reads[0]->Ok_0;
    let children = children_of(at.0, pom.modules, group_of(pom, at.1));
    let later = children + todo.drop_first();
    let rest = discovery(later, reads.drop_first())->Done_0;
    assert(ds == seq![module_of(at, pom)] + rest);
    if t == 0 {
        assert(ds[0].root == todo[0].0);
    } else {
        let u = t - 1 + children.len();
        assert(later[u] == todo[t]);
        todo_is_discovered(later, reads.drop_first(), rest, u);
        let m = choose|m: int| 0 <= m < rest.len() && (#[trigger] rest[m]).root == later[u].0;
        assert(ds[m + 1] == rest[m]);
    }
}

/// The reactor of a project is that of its POMs: module `i` is the one of the `i`th read, with
/// its artifact, its own group where it states one, its directory and `pom.xml`; and where all
/// identities differ, it depends on exactly those modules that the `<dependency>` entries of
/// its POM name.
pub proof fn reactor_is_that_of_the_poms(
    project_root: Seq<char>,
    reads: Seq<PomRead>,
    ds: Seq<DiscoveredModel>,
    r: Reactor,
    phase: MavenPhase,
    include_clean: bool,
    i: int,
    j: int,
)
    requires
        discovery(seq![(project_root, None::<Seq<char>>)], reads) == Found::Done(ds),
        is_reactor_of(r, ds, phase, include_clean),
        0 <= i < reads.len(),
        0 <= j < reads.len(),
        i != j,
        names_differ(ds),
    ensures
        r.modules@.len() == reads.len(),
        reads[i] matches Ok(pom) && {
            let m = r.modules@[i];
            let other = r.modules@[j];
            &&& m.id.artifact_id@ == pom.artifact_id
            &&& pom.group_id matches Some(g) ==> m.id.group_id@ == g
            &&& m.action_graph.module_root@ == m.root@
            &&& m.action_graph.pom_path@ == paths::joined_path(m.root@, "pom.xml"@)
            &&& i == 0 ==> m.root@ == project_root
            &&& other.id.group_id@.len() > 0 ==> (m.depends_on@.contains(j as usize)
                <==> pom.dependencies.contains((other.id.group_id@, other.id.artifact_id@)))
        },
{
    let todo = seq![(project_root, None::<Seq<char>>)];
    discovered_as_many_as_read(todo, reads, ds);
    modules_are_those_of_the_poms(todo, reads, ds, i);
    modules_are_those_of_the_poms(todo, reads, ds, j);
    named_sibling_is_built_first(r, ds, phase, include_clean, i, j);
    assert(is_node_of(r.modules@[i], ds, i, phase, include_clean));
    assert(is_node_of(r.modules@[j], ds, j, phase, include_clean));
    assert(todo[0].0 == project_root);
}

/// A module runs the plan of the goal on its own directory, whatever the other modules are.
pub proof fn every_module_runs_the_goal(
    r: Reactor,
    ds: Seq<DiscoveredModel>,
    phase: MavenPhase,
    i: int,
)
    requires
        is_reactor_of(r, ds, phase, false),
        0 <= i < ds.len(),
    ensures
        r.modules@[i].action_graph@.plan.len() > 0,
        r.modules@[i].action_graph@.plan.last().0 == maven_vocab::phase_name(phase),
{
    assert(is_node_of(r.modules@[i], ds, i, phase, false));
    action_graph::goal_runs_last(phase);
}

// ---------------------------------------------------------------------------
// Running a reactor
// ---------------------------------------------------------------------------

/// How the task of one module ended.
#[derive(Debug)]
pub enum TaskEnd<O, E> {
    /// With an outcome.
    Finished(O),
    /// With an error.
    Failed(E),
    /// The task was lost.
    Lost,
}

/// A run of a reactor, level by level.
#[derive(Debug)]
pub struct ReactorRun<O, E> {
    /// How far the run is.
    pub schedule: Schedule,
    /// What the modules came to, in the order of their indices.
    pub outcomes: Vec<Option<O>>,
    /// The error that counts, with the slot of its module.
    pub failure: Option<(usize, E)>,
}

/// Whether the levels name only the first `n` modules.
pub open spec fn names_modules(levels: Seq<Vec<usize>>, n: nat) -> bool {
    forall|k: int, a: int|
        0 <= k < levels.len() && 0 <= a < levels[k]@.len() ==> #[trigger] levels[k]@[a] < n
}

/// Whether a run is one of a reactor with these levels.
pub open spec fn fits<O, E>(levels: Seq<Vec<usize>>, run: ReactorRun<O, E>) -> bool {
    schedule::is_sound(levels, run.schedule@) && names_modules(levels, run.outcomes@.len())
}

/// The slot whose task ended, and whether that stops the run: an error does.
pub open spec fn end_of<O, E>(end: Option<(usize, TaskEnd<O, E>)>) -> Option<(usize, bool)> {
    match end {
        Some((slot, e)) => Some((slot, e is Failed)),
        None => None,
    }
}

/// The outcomes after an end: one that a module finished with is kept under its index.
pub open spec fn outcomes_after<O, E>(
    levels: Seq<Vec<usize>>,
    run: ReactorRun<O, E>,
    end: Option<(usize, TaskEnd<O, E>)>,
) -> Seq<Option<O>> {
    match end {
        Some((slot, TaskEnd::Finished(o))) => if run.schedule@.running.contains(slot) {
            run.outcomes@.update(levels[run.schedule@.level]@[slot as int] as int, Some(o))
        } else {
            run.outcomes@
        },
        _ => run.outcomes@,
    }
}

/// The error that counts after an end: of the errors of a level, that of the first module.
pub open spec fn failure_after<O, E>(
    run: ReactorRun<O, E>,
    end: Option<(usize, TaskEnd<O, E>)>,
) -> Option<(usize, E)> {
    match end {
        Some((slot, TaskEnd::Failed(e))) => if run.schedule@.running.contains(slot) {
            match run.failure {
                Some((s, f)) => if s <= slot {
                    Some((s, f))
                } else {
                    Some((slot, e))
                },
                None => Some((slot, e)),
            }
        } else {
            run.failure
        },
        _ => run.failure,
    }
}

/// Whether the run `a`, told of an end or of none, does `step` and is then `b`.
pub open spec fn ran<O, E>(
    levels: Seq<Vec<usize>>,
    at_most: nat,
    a: ReactorRun<O, E>,
    end: Option<(usize, TaskEnd<O, E>)>,
    b: ReactorRun<O, E>,
    step: Step,
) -> bool {
    &&& (b.schedule@, step) == schedule::stepped(
        levels,
        at_most,
        schedule::told(a.schedule@, end_of(end)),
    )
    &&& b.outcomes@ == outcomes_after(levels, a, end)
    &&& b.failure == failure_after(a, end)
}

/// The levels of a graph name its modules.
pub proof fn levels_name_modules(g: Graph, levels: Seq<Vec<usize>>)
    requires
        are_levels(g, levels),
    ensures
        names_modules(levels, g.len()),
{
    assert forall|k: int, a: int| 0 <= k < levels.len() && 0 <= a < levels[k]@.len() implies (
    #[trigger] levels[k]@[a]) < g.len() by {
        assert(is_level(g, k as nat, levels[k]@));
        assert(levels[k]@.contains(levels[k]@[a]));
        assert(built_after(g, (k + 1) as nat).contains(levels[k]@[a] as int));
    }
}

impl<O, E> ReactorRun<O, E> {
    /// A run that has done nothing yet.
    pub fn new(reactor: &Reactor) -> (r: ReactorRun<O, E>)
        ensures
            r.schedule@ == schedule::fresh(),
            r.failure is None,
            r.outcomes@.len() == reactor.modules@.len(),
            forall|i: int| 0 <= i < r.outcomes@.len() ==> (#[trigger] r.outcomes@[i]) is None,
            names_modules(reactor.topo_levels@, reactor.modules@.len()) ==> fits(
                reactor.topo_levels@,
                r,
            ),
    {
        let mut outcomes: Vec<Option<O>> = Vec::new();
        while outcomes.len() < reactor.modules.len()
            invariant
                outcomes@.len() <= reactor.modules@.len(),
                forall|i: int| 0 <= i < outcomes@.len() ==> (#[trigger] outcomes@[i]) is None,
            decreases reactor.modules@.len() - outcomes@.len(),
        {
            outcomes.push(None);
        }
        ReactorRun { schedule: Schedule::new(), outcomes, failure: None }
    }

    /// What the run came to: the error that counts, or what each module came to.
    pub fn finish(self) -> (r: Result<Vec<Option<O>>, E>)
        ensures
            match r {
                Ok(v) => self.failure is None && v == self.outcomes,
                Err(e) => self.failure matches Some((_, f)) && f == e,
            },
    {
        match self.failure {
            Some((_, e)) => Err(e),
            None => Ok(self.outcomes),
        }
    }
}

/// Moves a run on: takes the end of the task of a slot, where one ended, and says what to do
/// next. At most `workers_budget` tasks run at a time, and at least one.
pub fn run<O, E>(
    reactor: &Reactor,
    workers_budget: usize,
    state: &mut ReactorRun<O, E>,
    end: Option<(usize, TaskEnd<O, E>)>,
) -> (r: Step)
    requires
        fits(reactor.topo_levels@, *old(state)),
    ensures
        ran(
            reactor.topo_levels@,
            schedule::permits(workers_budget),
            *old(state),
            end,
            *final(state),
            r,
        ),
        fits(reactor.topo_levels@, *final(state)),
{
    let ghost levels = reactor.topo_levels@;
    let ghost before = state.schedule@;
    proof {
        schedule::step_is_sound(
            levels,
            schedule::permits(workers_budget),
            before,
            end_of(end),
        );
    }
    match end {
        None => {},
        Some((slot, e)) => {
            if state.schedule.runs(slot) {
                match e {
                    TaskEnd::Finished(o) => {
                        let module: usize = reactor.topo_levels[state.schedule.level][slot];
                        state.schedule.hear(slot, false);
                        state.outcomes.set(module, Some(o));
                    },
                    TaskEnd::Failed(f) => {
                        state.schedule.hear(slot, true);
                        let counts = match &state.failure {
                            Some((s, _)) => slot < *s,
                            None => true,
                        };
                        if counts {
                            state.failure = Some((slot, f));
                        }
                    },
                    TaskEnd::Lost => {
                        state.schedule.hear(slot, false);
                    },
                }
            }
        },
    }
    state.schedule.step(&reactor.topo_levels, workers_budget)
}

// ---------------------------------------------------------------------------
// Laws of a run
// ---------------------------------------------------------------------------

/// Whether a module was started before step `j`, and its end was heard before that step.
pub open spec fn done_before(
    states: Seq<Progress>,
    ends: Seq<Option<(usize, bool)>>,
    steps: Seq<Step>,
    module: usize,
    j: int,
) -> bool {
    exists|k: int|
        0 <= k < j && (#[trigger] steps[k] matches Step::Dispatch { slot, module: m } && m == module
            && schedule::ends_within(states, ends, states[k + 1].level, slot, k + 1, j + 1))
}

/// Whether a run goes level by level: never are more tasks in flight than are permitted; no
/// module is started twice; and where one is started, all modules of the levels before are
/// done.
pub open spec fn keeps_levels(
    levels: Seq<Vec<usize>>,
    at_most: nat,
    states: Seq<Progress>,
    ends: Seq<Option<(usize, bool)>>,
    steps: Seq<Step>,
) -> bool {
    &&& forall|k: int|
        0 <= k < states.len() ==> (#[trigger] states[k]).running.len() <= at_most
    &&& forall|k: int, j: int|
        0 <= k < j < steps.len() && (#[trigger] steps[k]) is Dispatch && (#[trigger] steps[j]) is Dispatch
            ==> steps[k]->module != steps[j]->module
    &&& forall|j: int, level: int, i: usize|
        0 <= j < steps.len() && (#[trigger] steps[j]) is Dispatch && 0 <= level < states[j + 1].level
            && #[trigger] levels[level]@.contains(i) ==> done_before(states, ends, steps, i, j)
}

/// Whether a run starts no module before all that it depends on is done.
pub open spec fn keeps_order(
    g: Graph,
    states: Seq<Progress>,
    ends: Seq<Option<(usize, bool)>>,
    steps: Seq<Step>,
) -> bool {
    forall|j: int, d: usize|
        0 <= j < steps.len() && (#[trigger] steps[j]) is Dispatch
            && #[trigger] g[steps[j]->module as int].contains(d) ==> done_before(
            states,
            ends,
            steps,
            d,
            j,
        )
}

/// No module stands in the levels of a graph twice.
pub proof fn levels_are_distinct(g: Graph, levels: Seq<Vec<usize>>)
    requires
        are_levels(g, levels),
    ensures
        schedule::distinct(levels),
{
    levels_name_modules(g, levels);
    assert forall|k: int, m: int, a: int, b: int|
        0 <= k < levels.len() && 0 <= m < levels.len() && 0 <= a < levels[k]@.len() && 0 <= b
            < levels[m]@.len() && #[trigger] levels[k]@[a] == #[trigger] levels[m]@[b] implies k
        == m && a == b by {
        let i = levels[k]@[a];
        assert(levels[k]@.contains(i));
        assert(levels[m]@.contains(i));
        every_module_in_one_level(g, levels, i);
    }
}

/// A run goes level by level.
pub proof fn course_keeps_levels(
    levels: Seq<Vec<usize>>,
    at_most: nat,
    states: Seq<Progress>,
    ends: Seq<Option<(usize, bool)>>,
    steps: Seq<Step>,
)
    requires
        schedule::distinct(levels),
        schedule::is_course(levels, at_most, states, ends, steps),
        at_most >= 1,
    ensures
        keeps_levels(levels, at_most, states, ends, steps),
{
    assert forall|k: int| 0 <= k < states.len() implies (#[trigger] states[k]).running.len()
        <= at_most by {
        schedule::permits_are_kept(levels, at_most, states, ends, steps, k);
    }
    assert forall|k: int, j: int|
        0 <= k < j < steps.len() && (#[trigger] steps[k]) is Dispatch && (#[trigger] steps[j]) is Dispatch implies steps[k]->module
        != steps[j]->module by {
        schedule::started_at_most_once(levels, at_most, states, ends, steps, k, j);
    }
    assert forall|j: int, level: int, i: usize|
        0 <= j < steps.len() && (#[trigger] steps[j]) is Dispatch && 0 <= level < states[j + 1].level
            && #[trigger] levels[level]@.contains(i) implies done_before(
        states,
        ends,
        steps,
        i,
        j,
    ) by {
        earlier_level_is_done(levels, at_most, states, ends, steps, j, level, i);
    }
}

/// A run through the levels of a graph keeps to the order of its modules.
pub proof fn course_keeps_order(
    g: Graph,
    levels: Seq<Vec<usize>>,
    at_most: nat,
    states: Seq<Progress>,
    ends: Seq<Option<(usize, bool)>>,
    steps: Seq<Step>,
)
    requires
        are_levels(g, levels),
        schedule::is_course(levels, at_most, states, ends, steps),
        at_most >= 1,
    ensures
        keeps_order(g, states, ends, steps),
{
    assert forall|j: int, d: usize|
        0 <= j < steps.len() && (#[trigger] steps[j]) is Dispatch
            && #[trigger] g[steps[j]->module as int].contains(d) implies done_before(
        states,
        ends,
        steps,
        d,
        j,
    ) by {
        schedule::permits_are_kept(levels, at_most, states, ends, steps, j);
        schedule::step_is_sound(levels, at_most, states[j], ends[j]);
        let level = states[j + 1].level;
        let i = steps[j]->module;
        assert(levels[level]@[steps[j]->slot as int] == i);
        assert(levels[level]@.contains(i));
        dependencies_come_first(g, levels, level, i, d);
        let m = choose|m: int| 0 <= m < level && (#[trigger] levels[m])@.contains(d);
        earlier_level_is_done(levels, at_most, states, ends, steps, j, m, d);
    }
}

proof fn earlier_level_is_done(
    levels: Seq<Vec<usize>>,
    at_most: nat,
    states: Seq<Progress>,
    ends: Seq<Option<(usize, bool)>>,
    steps: Seq<Step>,
    j: int,
    level: int,
    i: usize,
)
    requires
        schedule::is_course(levels, at_most, states, ends, steps),
        at_most >= 1,
        0 <= j < steps.len(),
        steps[j] is Dispatch,
        0 <= level < states[j + 1].level,
        levels[level]@.contains(i),
    ensures
        done_before(states, ends, steps, i, j),
{
    schedule::permits_are_kept(levels, at_most, states, ends, steps, j + 1);
    let a = choose|a: int| 0 <= a < levels[level]@.len() && levels[level]@[a] == i;
    assert(levels[level]@.len() == levels[level].len());
    let k = schedule::levels_wait_for_each_other(
        levels,
        at_most,
        states,
        ends,
        steps,
        j,
        level,
        a as usize,
    );
    assert(steps[k] is Dispatch && states[k + 1].level == level);
}

/// A run that is done and was not stopped has started every module of its levels and heard its
/// end.
pub proof fn unstopped_course_is_complete(
    levels: Seq<Vec<usize>>,
    at_most: nat,
    states: Seq<Progress>,
    ends: Seq<Option<(usize, bool)>>,
    steps: Seq<Step>,
    level: int,
    i: usize,
)
    requires
        schedule::is_course(levels, at_most, states, ends, steps),
        at_most >= 1,
        steps.len() > 0,
        steps.last() is Done,
        !states.last().stopped,
        0 <= level < levels.len(),
        levels[level]@.contains(i),
    ensures
        done_before(states, ends, steps, i, steps.len() - 1),
{
    let a = choose|a: int| 0 <= a < levels[level]@.len() && levels[level]@[a] == i;
    assert(levels[level]@.len() == levels[level].len());
    let k = schedule::unstopped_run_starts_all(
        levels,
        at_most,
        states,
        ends,
        steps,
        level,
        a as usize,
    );
    assert(steps[k] is Dispatch && states[k + 1].level == level);
}

/// A run that was stopped and is done has started every module of its last level and heard its
/// end.
pub proof fn stopped_level_is_complete(
    levels: Seq<Vec<usize>>,
    at_most: nat,
    states: Seq<Progress>,
    ends: Seq<Option<(usize, bool)>>,
    steps: Seq<Step>,
    i: int,
    j: int,
)
    requires
        schedule::is_course(levels, at_most, states, ends, steps),
        at_most >= 1,
        0 <= i < j < states.len(),
        ends[i] matches Some((slot, stops)) && stops && states[i].running.contains(slot),
        steps[j - 1] is Done,
    ensures
        forall|x: usize| #[trigger]
            levels[states[i].level]@.contains(x) ==> done_before(states, ends, steps, x, j - 1),
{
    let level = states[i].level;
    schedule::stop_ends_with_its_level(levels, at_most, states, ends, steps, i, j);
    schedule::permits_are_kept(levels, at_most, states, ends, steps, i);
    assert forall|x: usize| #[trigger] levels[level]@.contains(x) implies done_before(
        states,
        ends,
        steps,
        x,
        j - 1,
    ) by {
        let a = choose|a: int| 0 <= a < levels[level]@.len() && levels[level]@[a] == x;
        assert(levels[level]@.len() == levels[level].len());
        let slot = a as usize;
        let k = schedule::passed_is_started(levels, at_most, states, ends, steps, j, level, slot);
        schedule::task_runs_until_its_end(
            levels,
            at_most,
            states,
            ends,
            steps,
            k,
            level,
            slot,
            j,
        );
        assert(steps[k] is Dispatch && states[k + 1].level == level);
    }
}

/// Whether `runs` are the states of one run from its start: it was told of `ends` in turn, each
/// time of one or of none, and then took `steps`.
pub open spec fn is_run<O, E>(
    levels: Seq<Vec<usize>>,
    at_most: nat,
    runs: Seq<ReactorRun<O, E>>,
    ends: Seq<Option<(usize, TaskEnd<O, E>)>>,
    steps: Seq<Step>,
) -> bool {
    &&& runs.len() == steps.len() + 1
    &&& ends.len() == steps.len()
    &&& runs[0].schedule@ == schedule::fresh()
    &&& runs[0].failure is None
    &&& names_modules(levels, runs[0].outcomes@.len())
    &&& forall|k: int|
        0 <= k < steps.len() ==> ran(
            levels,
            at_most,
            runs[k],
            ends[k],
            runs[k + 1],
            #[trigger] steps[k],
        )
}

/// How far the states of a run are.
pub open spec fn progress_of<O, E>(runs: Seq<ReactorRun<O, E>>) -> Seq<Progress> {
    runs.map_values(|r: ReactorRun<O, E>| r.schedule@)
}

/// The ends that a run was told of.
pub open spec fn ends_of<O, E>(ends: Seq<Option<(usize, TaskEnd<O, E>)>>) -> Seq<
    Option<(usize, bool)>,
> {
    ends.map_values(|e: Option<(usize, TaskEnd<O, E>)>| end_of(e))
}

proof fn run_is_a_course<O, E>(
    levels: Seq<Vec<usize>>,
    at_most: nat,
    runs: Seq<ReactorRun<O, E>>,
    ends: Seq<Option<(usize, TaskEnd<O, E>)>>,
    steps: Seq<Step>,
)
    requires
        is_run(levels, at_most, runs, ends, steps),
    ensures
        schedule::is_course(levels, at_most, progress_of(runs), ends_of(ends), steps),
{
    let states = progress_of(runs);
    let told = ends_of(ends);
    assert forall|k: int| 0 <= k < steps.len() implies (states[k + 1], #[trigger] steps[k])
        == schedule::stepped(levels, at_most, schedule::told(states[k], told[k])) by {
        assert(ran(levels, at_most, runs[k], ends[k], runs[k + 1], steps[k]));
    }
}

/// A run goes level by level: at most as many modules are in flight as there are workers, and
/// at least one may be; no module is started twice; and every module of a level has ended
/// before one of a later level starts.
pub proof fn run_goes_level_by_level<O, E>(
    levels: Seq<Vec<usize>>,
    workers_budget: usize,
    runs: Seq<ReactorRun<O, E>>,
    ends: Seq<Option<(usize, TaskEnd<O, E>)>>,
    steps: Seq<Step>,
)
    requires
        schedule::distinct(levels),
        is_run(levels, schedule::permits(workers_budget), runs, ends, steps),
    ensures
        keeps_levels(
            levels,
            schedule::permits(workers_budget),
            progress_of(runs),
            ends_of(ends),
            steps,
        ),
{
    let at_most = schedule::permits(workers_budget);
    run_is_a_course(levels, at_most, runs, ends, steps);
    course_keeps_levels(levels, at_most, progress_of(runs), ends_of(ends), steps);
}

/// Through the levels of a graph, no module starts before all that it depends on has ended.
pub proof fn run_respects_dependencies<O, E>(
    g: Graph,
    levels: Seq<Vec<usize>>,
    workers_budget: usize,
    runs: Seq<ReactorRun<O, E>>,
    ends: Seq<Option<(usize, TaskEnd<O, E>)>>,
    steps: Seq<Step>,
)
    requires
        are_levels(g, levels),
        is_run(levels, schedule::permits(workers_budget), runs, ends, steps),
    ensures
        keeps_order(g, progress_of(runs), ends_of(ends), steps),
{
    let at_most = schedule::permits(workers_budget);
    run_is_a_course(levels, at_most, runs, ends, steps);
    course_keeps_order(g, levels, at_most, progress_of(runs), ends_of(ends), steps);
}

/// A run that is done without an error has started every module of its levels and heard its
/// end.
pub proof fn run_without_error_is_complete<O, E>(
    levels: Seq<Vec<usize>>,
    workers_budget: usize,
    runs: Seq<ReactorRun<O, E>>,
    ends: Seq<Option<(usize, TaskEnd<O, E>)>>,
    steps: Seq<Step>,
    level: int,
    i: usize,
)
    requires
        is_run(levels, schedule::permits(workers_budget), runs, ends, steps),
        steps.len() > 0,
        steps.last() is Done,
        runs.last().failure is None,
        0 <= level < levels.len(),
        levels[level]@.contains(i),
    ensures
        done_before(progress_of(runs), ends_of(ends), steps, i, steps.len() - 1),
{
    let at_most = schedule::permits(workers_budget);
    let states = progress_of(runs);
    run_is_a_course(levels, at_most, runs, ends, steps);
    error_stops(levels, at_most, runs, ends, steps, steps.len() as int);
    unstopped_course_is_complete(levels, at_most, states, ends_of(ends), steps, level, i);
}

/// A run is stopped exactly where there is an error.
proof fn error_stops<O, E>(
    levels: Seq<Vec<usize>>,
    at_most: nat,
    runs: Seq<ReactorRun<O, E>>,
    ends: Seq<Option<(usize, TaskEnd<O, E>)>>,
    steps: Seq<Step>,
    j: int,
)
    requires
        is_run(levels, at_most, runs, ends, steps),
        0 <= j < runs.len(),
    ensures
        runs[j].schedule@.stopped == (runs[j].failure is Some),
    decreases j,
{
    if j > 0 {
        error_stops(levels, at_most, runs, ends, steps, j - 1);
        let step = steps[j - 1];
    }
}

/// Where a module fails, the result is an error: that of the first module of the level, in
/// the order of the level, that failed so far. No module of a later level is started, and the
/// run is not done before the rest of the level ran to its end.
pub proof fn error_ends_the_run<O, E>(
    levels: Seq<Vec<usize>>,
    workers_budget: usize,
    runs: Seq<ReactorRun<O, E>>,
    ends: Seq<Option<(usize, TaskEnd<O, E>)>>,
    steps: Seq<Step>,
    i: int,
    j: int,
)
    requires
        is_run(levels, schedule::permits(workers_budget), runs, ends, steps),
        0 <= i < j < runs.len(),
        ends[i] matches Some((slot, e)) && e is Failed
            && runs[i].schedule@.running.contains(slot),
    ensures
        runs[j].schedule@.level == runs[i].schedule@.level,
        ends[i] matches Some((slot, _)) && runs[j].failure matches Some((s, f)) && s <= slot
            && exists|m: int|
            0 <= m < j && #[trigger] ends[m] == Some((s, TaskEnd::<O, E>::Failed(f))),
        steps[j - 1] is Dispatch ==> levels[runs[i].schedule@.level]@.contains(
            steps[j - 1]->module,
        ),
        steps[j - 1] is Done ==> forall|x: usize| #[trigger]
            levels[runs[i].schedule@.level]@.contains(x) ==> done_before(
                progress_of(runs),
                ends_of(ends),
                steps,
                x,
                j - 1,
            ),
    decreases j,
{
    let at_most = schedule::permits(workers_budget);
    run_is_a_course(levels, at_most, runs, ends, steps);
    if steps[j - 1] is Done {
        stopped_level_is_complete(
            levels,
            at_most,
            progress_of(runs),
            ends_of(ends),
            steps,
            i,
            j,
        );
    }
    schedule::stop_ends_with_its_level(
        levels,
        at_most,
        progress_of(runs),
        ends_of(ends),
        steps,
        i,
        j,
    );
    let step = steps[j - 1];
    assert(ran(levels, at_most, runs[j - 1], ends[j - 1], runs[j], step));
    error_was_heard(levels, at_most, runs, ends, steps, j);
    if i < j - 1 {
        error_ends_the_run(levels, workers_budget, runs, ends, steps, i, j - 1);
    }
}

/// The error of a run is one that was heard.
proof fn error_was_heard<O, E>(
    levels: Seq<Vec<usize>>,
    at_most: nat,
    runs: Seq<ReactorRun<O, E>>,
    ends: Seq<Option<(usize, TaskEnd<O, E>)>>,
    steps: Seq<Step>,
    j: int,
)
    requires
        is_run(levels, at_most, runs, ends, steps),
        0 <= j < runs.len(),
    ensures
        runs[j].failure matches Some((s, f)) ==> exists|m: int|
            0 <= m < j && #[trigger] ends[m] == Some((s, TaskEnd::<O, E>::Failed(f))),
    decreases j,
{
    if j > 0 {
        error_was_heard(levels, at_most, runs, ends, steps, j - 1);
        let step = steps[j - 1];
        assert(ran(levels, at_most, runs[j - 1], ends[j - 1], runs[j], step));
        let end = ends[j - 1];
    }
}

/// An outcome that was heard stays, whatever other modules come to.
pub proof fn outcome_is_kept<O, E>(
    levels: Seq<Vec<usize>>,
    workers_budget: usize,
    runs: Seq<ReactorRun<O, E>>,
    ends: Seq<Option<(usize, TaskEnd<O, E>)>>,
    steps: Seq<Step>,
    i: int,
    slot: usize,
    o: O,
    j: int,
)
    requires
        is_run(levels, schedule::permits(workers_budget), runs, ends, steps),
        schedule::distinct(levels),
        0 <= i < j < runs.len(),
        ends[i] == Some((slot, TaskEnd::<O, E>::Finished(o))),
        runs[i].schedule@.running.contains(slot),
    ensures
        runs[j].outcomes@.len() == runs[0].outcomes@.len(),
        runs[j].outcomes@[levels[runs[i].schedule@.level]@[slot as int] as int] == Some(o),
    decreases j,
{
    let at_most = schedule::permits(workers_budget);
    let states = progress_of(runs);
    run_is_a_course(levels, at_most, runs, ends, steps);
    let step = steps[j - 1];
    assert(ran(levels, at_most, runs[j - 1], ends[j - 1], runs[j], step));
    outcomes_keep_their_number(levels, at_most, runs, ends, steps, j - 1);
    schedule::permits_are_kept(levels, at_most, states, ends_of(ends), steps, i);
    schedule::permits_are_kept(levels, at_most, states, ends_of(ends), steps, j - 1);
    let level = runs[i].schedule@.level;
    assert(states[i].running.contains(slot));
    assert(levels[level]@[slot as int] < runs[0].outcomes@.len());
    if i < j - 1 {
        outcome_is_kept(levels, workers_budget, runs, ends, steps, i, slot, o, j - 1);
        schedule::ended_task_stays_ended(
            levels,
            at_most,
            states,
            ends_of(ends),
            steps,
            i,
            slot,
            j - 1,
        );
        if let Some((s, TaskEnd::Finished(_))) = ends[j - 1] {
            if states[j - 1].running.contains(s) {
                let other = states[j - 1].level;
                assert(levels[other]@[s as int] < runs[0].outcomes@.len());
                if levels[other]@[s as int] == levels[level]@[slot as int] {
                    assert(other == level && s == slot);
                }
            }
        }
    }
}

proof fn outcomes_keep_their_number<O, E>(
    levels: Seq<Vec<usize>>,
    at_most: nat,
    runs: Seq<ReactorRun<O, E>>,
    ends: Seq<Option<(usize, TaskEnd<O, E>)>>,
    steps: Seq<Step>,
    j: int,
)
    requires
        is_run(levels, at_most, runs, ends, steps),
        at_most >= 1,
        0 <= j < runs.len(),
    ensures
        runs[j].outcomes@.len() == runs[0].outcomes@.len(),
    decreases j,
{
    if j > 0 {
        outcomes_keep_their_number(levels, at_most, runs, ends, steps, j - 1);
        let step = steps[j - 1];
        assert(ran(levels, at_most, runs[j - 1], ends[j - 1], runs[j], step));
        let states = progress_of(runs);
        run_is_a_course(levels, at_most, runs, ends, steps);
        schedule::permits_are_kept(levels, at_most, states, ends_of(ends), steps, j - 1);
        if let Some((slot, TaskEnd::Finished(_))) = ends[j - 1] {
            if states[j - 1].running.contains(slot) {
                assert(levels[states[j - 1].level]@[slot as int] < runs[0].outcomes@.len());
            }
        }
    }
}

/// What is said of modules and their POMs is said of what they hold.
pub proof fn models_are_of_their_modules(
    id: ModuleId,
    pom: PomFacts,
    d: DiscoveredModule,
    ms: Seq<ModuleNode>,
    i: int,
)
    ensures
        id@ == (id.group_id@, id.artifact_id@),
        ga_text(id@) == id.group_id@ + ":"@ + id.artifact_id@,
        pom.group_id matches Some(g) ==> pom@.group_id == Some(g@),
        pom.group_id is None ==> pom@.group_id is None,
        pom.parent_group_id matches Some(g) ==> pom@.parent_group_id == Some(g@),
        pom.parent_group_id is None ==> pom@.parent_group_id is None,
        pom@.artifact_id == pom.artifact_id@,
        pom@.dependencies.len() == pom.dependencies@.len(),
        0 <= i < pom.dependencies@.len() ==> pom@.dependencies[i] == (
            pom.dependencies@[i].group_id@,
            pom.dependencies@[i].artifact_id@,
        ),
        pom@.modules.len() == pom.modules@.len(),
        0 <= i < pom.modules@.len() ==> pom@.modules[i] == pom.modules@[i]@,
        d@.id == (d.id.group_id@, d.id.artifact_id@),
        d@.root == d.root@,
        d@.dependency_gas.len() == d.dependency_gas@.len(),
        0 <= i < d.dependency_gas@.len() ==> d@.dependency_gas[i] == d.dependency_gas@[i]@,
        graph_of(ms).len() == ms.len() && ids_of(ms).len() == ms.len(),
        0 <= i < ms.len() ==> graph_of(ms)[i] == ms[i].depends_on@ && ids_of(ms)[i] == ms[i].id@,
{
}

/// A reactor that cannot be built is told with the module, or with the circle.
pub proof fn errors_name_the_module(path: Seq<char>, detail: Seq<char>)
    ensures
        text::is_beginning_and_end(
            fault_text(ReactorFault::Pom { path, detail }),
            "BAR-REACTOR-POM: failed to read POM at "@ + path + ": "@,
            detail,
        ),
        fault_text(ReactorFault::MissingArtifactId { path }) == "BAR-REACTOR-POM: module at "@
            + path + " has no <artifactId>"@,
        text::is_beginning_and_end(
            fault_text(ReactorFault::Cycle { path }),
            "BAR-REACTOR-CYCLE: inter-module dependency cycle detected: "@,
            path,
        ),
{
    text::two_parts_are_beginning_and_end(
        "BAR-REACTOR-POM: failed to read POM at "@ + path + ": "@,
        detail,
    );
    text::two_parts_are_beginning_and_end(
        "BAR-REACTOR-CYCLE: inter-module dependency cycle detected: "@,
        path,
    );
}

} // verus!
