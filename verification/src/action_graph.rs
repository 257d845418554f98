//! The lifecycle action graph: the ordered phases that the daemon runs on a module.

use vstd::prelude::*;
use vstd::string::*;

use crate::cmd::maven_vocab;
use crate::cmd::maven_vocab::MavenPhase;
use crate::facts;
use crate::facts::Binding;
use crate::project;
use crate::text;

verus! {

/// The ordered actions for one module.
#[derive(Debug)]
pub struct ActionGraph {
    /// The module's directory.
    pub module_root: String,
    /// The module's `pom.xml`.
    pub pom_path: String,
    /// The actions; each one completes before the next one starts.
    pub actions: Vec<PlannedAction>,
}

/// One planned action.
#[derive(Debug, Clone, Copy)]
pub struct PlannedAction {
    /// The lifecycle phase.
    pub phase: &'static str,
    /// Whether the action may be run again after a daemon crash.
    pub retryable: bool,
}

/// A credential for one server.
#[derive(Debug)]
pub struct Credential {
    pub server_id: String,
    pub username: String,
    pub password: Option<String>,
}

/// The request that asks the daemon for one action.
#[derive(Debug)]
pub struct ActionRequest {
    /// Chosen when the request is submitted; empty until then.
    pub action_id: String,
    /// What to run: the name of a phase.
    pub mojo_coords: String,
    pub project_root: String,
    pub pom_path: String,
    pub working_directory: String,
    pub maven_compat: String,
    pub stdout_stream_id: u32,
    pub stderr_stream_id: u32,
    pub environment: Vec<Binding>,
    pub system_properties: Vec<Binding>,
    pub credentials: Option<Vec<Credential>>,
    /// The user's own arguments, as they were given.
    pub arguments: Vec<String>,
}

// ---------------------------------------------------------------------------
// Model
// ---------------------------------------------------------------------------

/// A phase and whether it may be run again.
pub type PhaseModel = (Seq<char>, bool);

/// The model of a list of actions.
pub open spec fn plan_of(actions: Seq<PlannedAction>) -> Seq<PhaseModel> {
    actions.map_values(|a: PlannedAction| (a.phase@, a.retryable))
}

/// The model of an [`ActionGraph`].
pub struct GraphModel {
    pub module_root: Seq<char>,
    pub pom_path: Seq<char>,
    pub plan: Seq<PhaseModel>,
}

impl View for ActionGraph {
    type V = GraphModel;

    open spec fn view(&self) -> GraphModel {
        GraphModel {
            module_root: self.module_root@,
            pom_path: self.pom_path@,
            plan: plan_of(self.actions@),
        }
    }
}

/// The model of a [`Credential`].
pub struct CredentialModel {
    pub server_id: Seq<char>,
    pub username: Seq<char>,
    pub password: Option<Seq<char>>,
}

impl View for Credential {
    type V = CredentialModel;

    open spec fn view(&self) -> CredentialModel {
        CredentialModel {
            server_id: self.server_id@,
            username: self.username@,
            password: text::opt_text(self.password),
        }
    }
}

/// The model of a list of credentials.
pub open spec fn credentials_of(cs: Seq<Credential>) -> Seq<CredentialModel> {
    cs.map_values(|c: Credential| c@)
}

/// The model of an [`ActionRequest`].
pub struct RequestModel {
    pub action_id: Seq<char>,
    pub mojo_coords: Seq<char>,
    pub project_root: Seq<char>,
    pub pom_path: Seq<char>,
    pub working_directory: Seq<char>,
    pub maven_compat: Seq<char>,
    pub stdout_stream_id: u32,
    pub stderr_stream_id: u32,
    pub environment: Seq<(Seq<char>, Seq<char>)>,
    pub system_properties: Seq<(Seq<char>, Seq<char>)>,
    pub credentials: Option<Seq<CredentialModel>>,
    pub arguments: Seq<Seq<char>>,
}

impl View for ActionRequest {
    type V = RequestModel;

    open spec fn view(&self) -> RequestModel {
        RequestModel {
            action_id: self.action_id@,
            mojo_coords: self.mojo_coords@,
            project_root: self.project_root@,
            pom_path: self.pom_path@,
            working_directory: self.working_directory@,
            maven_compat: self.maven_compat@,
            stdout_stream_id: self.stdout_stream_id,
            stderr_stream_id: self.stderr_stream_id,
            environment: facts::pairs(self.environment@),
            system_properties: facts::pairs(self.system_properties@),
            credentials: match self.credentials {
                Some(cs) => Some(credentials_of(cs@)),
                None => None,
            },
            arguments: text::texts(self.arguments@),
        }
    }
}

/// The phases of the default lifecycle, in their order. All up to `verify` may be run
/// again; `install` and `deploy` have effects that must not be repeated.
pub open spec fn default_lifecycle() -> Seq<PhaseModel> {
    seq![
        ("process-resources"@, true),
        ("compile"@, true),
        ("process-test-resources"@, true),
        ("test-compile"@, true),
        ("test"@, true),
        ("prepare-package"@, true),
        ("package"@, true),
        ("integration-test"@, true),
        ("verify"@, true),
        ("install"@, false),
        ("deploy"@, false),
    ]
}

/// How many phases of the default lifecycle a goal runs; `clean` and `site` have
/// lifecycles of their own.
pub open spec fn lifecycle_depth(p: MavenPhase) -> int {
    match p {
        MavenPhase::Clean => 0,
        MavenPhase::Compile => 2,
        MavenPhase::Test => 5,
        MavenPhase::Package => 7,
        MavenPhase::Verify => 9,
        MavenPhase::Install => 10,
        MavenPhase::Deploy => 11,
        MavenPhase::Site => 0,
    }
}

/// The phases that a goal runs, in their order.
pub open spec fn phase_prefix(p: MavenPhase) -> Seq<PhaseModel> {
    match p {
        MavenPhase::Clean => seq![("clean"@, true)],
        MavenPhase::Site => seq![("site"@, true)],
        _ => default_lifecycle().take(lifecycle_depth(p)),
    }
}

/// The graph of a goal on a module, with `clean` in front where it is asked for.
pub open spec fn lifecycle_model(p: MavenPhase, module_root: Seq<char>, include_clean: bool) -> GraphModel {
    GraphModel {
        module_root,
        pom_path: project::pom_of(module_root),
        plan: if include_clean {
            seq![("clean"@, true)] + phase_prefix(p)
        } else {
            phase_prefix(p)
        },
    }
}

/// The request for one action of a graph, without arguments.
pub open spec fn request_model(
    graph: GraphModel,
    phase: Seq<char>,
    project_root: Seq<char>,
) -> RequestModel {
    RequestModel {
        action_id: Seq::empty(),
        mojo_coords: phase,
        project_root,
        pom_path: graph.pom_path,
        working_directory: graph.module_root,
        maven_compat: "4"@,
        stdout_stream_id: 1,
        stderr_stream_id: 2,
        environment: Seq::empty(),
        system_properties: Seq::empty(),
        credentials: None,
        arguments: Seq::empty(),
    }
}

// ---------------------------------------------------------------------------
// Construction
// ---------------------------------------------------------------------------

/// The number of phases of the default lifecycle that `verify` runs.
pub const VERIFY_DEPTH: usize = 9;

fn depth(p: MavenPhase) -> (r: usize)
    ensures
        r == lifecycle_depth(p),
{
    match p {
        MavenPhase::Clean => 0,
        MavenPhase::Compile => 2,
        MavenPhase::Test => 5,
        MavenPhase::Package => 7,
        MavenPhase::Verify => VERIFY_DEPTH,
        MavenPhase::Install => 10,
        MavenPhase::Deploy => 11,
        MavenPhase::Site => 0,
    }
}

/// Phase `i` of the default lifecycle.
fn default_phase(i: usize) -> (r: PlannedAction)
    requires
        i < 11,
    ensures
        (r.phase@, r.retryable) == default_lifecycle()[i as int],
{
    let retryable = i < 9;
    let phase = match i {
        0 => "process-resources",
        1 => "compile",
        2 => "process-test-resources",
        3 => "test-compile",
        4 => "test",
        5 => "prepare-package",
        6 => "package",
        7 => "integration-test",
        8 => "verify",
        9 => "install",
        _ => "deploy",
    };
    PlannedAction { phase, retryable }
}

/// The phases that `verify` runs, in their order.
pub fn verify_phase_prefix() -> (r: Vec<&'static str>)
    ensures
        r@.len() == VERIFY_DEPTH,
        forall|i: int| 0 <= i < r@.len() ==> #[trigger] r@[i]@ == default_lifecycle()[i].0,
{
    let mut out: Vec<&'static str> = Vec::new();
    let mut i: usize = 0;
    while i < VERIFY_DEPTH
        invariant
            i <= VERIFY_DEPTH,
            out@.len() == i,
            forall|k: int| 0 <= k < i ==> #[trigger] out@[k]@ == default_lifecycle()[k].0,
        decreases VERIFY_DEPTH - i,
    {
        out.push(default_phase(i).phase);
        i = i + 1;
    }
    out
}

/// The graph of a goal on a module. `module_root` is the directory of the module's
/// `pom.xml`.
pub fn lifecycle_graph(phase: MavenPhase, module_root: String, include_clean: bool) -> (r:
    ActionGraph)
    ensures
        r@ == lifecycle_model(phase, module_root@, include_clean),
{
    let mut actions: Vec<PlannedAction> = Vec::new();
    if include_clean {
        actions.push(PlannedAction { phase: "clean", retryable: true });
    }
    let ghost front = if include_clean {
        seq![("clean"@, true)]
    } else {
        Seq::empty()
    };
    assert(plan_of(actions@) =~= front);
    if phase == MavenPhase::Clean {
        actions.push(PlannedAction { phase: "clean", retryable: true });
        assert(plan_of(actions@) =~= front + seq![("clean"@, true)]);
    } else if phase == MavenPhase::Site {
        actions.push(PlannedAction { phase: "site", retryable: true });
        assert(plan_of(actions@) =~= front + seq![("site"@, true)]);
    } else {
        let n: usize = depth(phase);
        let mut i: usize = 0;
        assert(plan_of(actions@) =~= front + default_lifecycle().take(0));
        while i < n
            invariant
                i <= n <= 11,
                n == lifecycle_depth(phase),
                plan_of(actions@) == front + default_lifecycle().take(i as int),
            decreases n - i,
        {
            let ghost before = plan_of(actions@);
            actions.push(default_phase(i));
            assert(plan_of(actions@) =~= before.push(default_lifecycle()[i as int]));
            i = i + 1;
            assert(plan_of(actions@) =~= front + default_lifecycle().take(i as int));
        }
    }
    assert(!include_clean ==> front + phase_prefix(phase) =~= phase_prefix(phase));
    assert(plan_of(actions@) =~= front + phase_prefix(phase));
    let pom_path = project::pom_path(module_root.as_str());
    ActionGraph { module_root, pom_path, actions }
}

/// The graph of `verify` on a module, with `clean` in front where it is asked for.
pub fn verify_graph(module_root: String, include_clean: bool) -> (r: ActionGraph)
    ensures
        r@ == lifecycle_model(MavenPhase::Verify, module_root@, include_clean),
{
    lifecycle_graph(MavenPhase::Verify, module_root, include_clean)
}

/// Why no graph could be built for an expression.
#[derive(Debug)]
pub enum ShotGraphError {
    /// The expression is not the name of a lifecycle phase.
    UnknownPhase { expr: String },
}

/// The graph of the phase that `expr` names.
pub fn shot_graph(module_root: String, expr: &str) -> (r: Result<ActionGraph, ShotGraphError>)
    ensures
        match r {
            Ok(g) => exists|p: MavenPhase| #[trigger]
                maven_vocab::phase_name(p) == expr@ && g@ == lifecycle_model(p, module_root@, false),
            Err(ShotGraphError::UnknownPhase { expr: e }) => e@ == expr@ && forall|p: MavenPhase|
             #[trigger] maven_vocab::phase_name(p) != expr@,
        },
{
    match MavenPhase::from_phase_name(expr) {
        Some(p) => {
            assert(maven_vocab::phase_name(p) == expr@);
            Ok(lifecycle_graph(p, module_root, false))
        },
        None => Err(ShotGraphError::UnknownPhase { expr: expr.to_owned() }),
    }
}

impl ShotGraphError {
    /// The error as the user sees it.
    pub fn to_message(&self) -> (r: String)
        ensures
            match self {
                ShotGraphError::UnknownPhase { expr } => r@ == "unknown lifecycle phase `"@ + expr@
                    + "`"@,
            },
    {
        match self {
            ShotGraphError::UnknownPhase { expr } => {
                let mut out = "unknown lifecycle phase `".to_owned();
                out.append(expr.as_str());
                out.append("`");
                out
            },
        }
    }
}

/// The request for one action of a graph, without arguments.
pub fn build_action_request(graph: &ActionGraph, action: &PlannedAction, project_root: &str) -> (r:
    ActionRequest)
    ensures
        r@ == request_model(graph@, action.phase@, project_root@),
        r@.stdout_stream_id != r@.stderr_stream_id,
{
    let r = ActionRequest {
        action_id: String::new(),
        mojo_coords: action.phase.to_owned(),
        project_root: project_root.to_owned(),
        pom_path: graph.pom_path.clone(),
        working_directory: graph.module_root.clone(),
        maven_compat: "4".to_owned(),
        stdout_stream_id: 1,
        stderr_stream_id: 2,
        environment: Vec::new(),
        system_properties: Vec::new(),
        credentials: None,
        arguments: Vec::new(),
    };
    assert(text::texts(r.arguments@) =~= Seq::empty());
    assert(facts::pairs(r.environment@) =~= Seq::empty());
    assert(facts::pairs(r.system_properties@) =~= Seq::empty());
    r
}

/// A copy of a list of credentials.
pub fn clone_credentials(cs: &Vec<Credential>) -> (r: Vec<Credential>)
    ensures
        credentials_of(r@) == credentials_of(cs@),
{
    let mut out: Vec<Credential> = Vec::new();
    let mut i: usize = 0;
    while i < cs.len()
        invariant
            i <= cs@.len(),
            credentials_of(out@) == credentials_of(cs@).take(i as int),
        decreases cs@.len() - i,
    {
        let c = Credential {
            server_id: cs[i].server_id.clone(),
            username: cs[i].username.clone(),
            password: text::clone_opt(&cs[i].password),
        };
        let ghost before = credentials_of(out@);
        out.push(c);
        assert(credentials_of(out@) =~= before.push(c@));
        assert(c@ == credentials_of(cs@)[i as int]);
        i = i + 1;
        assert(credentials_of(out@) =~= credentials_of(cs@).take(i as int));
    }
    assert(credentials_of(cs@).take(cs@.len() as int) =~= credentials_of(cs@));
    out
}

/// A copy of an action graph.
pub fn clone_graph(g: &ActionGraph) -> (r: ActionGraph)
    ensures
        r@ == g@,
        r.actions@.len() == g.actions@.len(),
{
    let mut actions: Vec<PlannedAction> = Vec::new();
    let mut i: usize = 0;
    while i < g.actions.len()
        invariant
            i <= g.actions@.len(),
            actions@ == g.actions@.take(i as int),
        decreases g.actions@.len() - i,
    {
        actions.push(g.actions[i]);
        i = i + 1;
        assert(actions@ =~= g.actions@.take(i as int));
    }
    assert(g.actions@.take(g.actions@.len() as int) =~= g.actions@);
    ActionGraph { module_root: g.module_root.clone(), pom_path: g.pom_path.clone(), actions }
}

// ---------------------------------------------------------------------------
// Laws
// ---------------------------------------------------------------------------

/// Everything that `verify` runs may be run again after a crash.
pub proof fn verify_phases_are_retryable(module_root: Seq<char>, include_clean: bool, i: int)
    requires
        0 <= i < lifecycle_model(MavenPhase::Verify, module_root, include_clean).plan.len(),
    ensures
        lifecycle_model(MavenPhase::Verify, module_root, include_clean).plan[i].1,
{
}

/// Of all goals, only `install` and `deploy` run a phase that must not be repeated.
pub proof fn only_publishing_goals_are_not_retryable(p: MavenPhase)
    ensures
        (exists|i: int| 0 <= i < phase_prefix(p).len() && !(#[trigger] phase_prefix(p)[i]).1) <==> (p
            == MavenPhase::Install || p == MavenPhase::Deploy),
{
    if p == MavenPhase::Install || p == MavenPhase::Deploy {
        assert(!phase_prefix(p)[9].1);
    }
}

/// The last phase that a goal runs is the goal itself.
pub proof fn goal_runs_last(p: MavenPhase)
    ensures
        phase_prefix(p).len() > 0,
        phase_prefix(p).last().0 == maven_vocab::phase_name(p),
{
}

/// A later goal of the default lifecycle runs everything that an earlier one runs, first
/// and in the same order.
pub proof fn later_goal_extends_earlier(a: MavenPhase, b: MavenPhase)
    requires
        0 < lifecycle_depth(a) <= lifecycle_depth(b),
    ensures
        phase_prefix(a).is_prefix_of(phase_prefix(b)),
{
    assert(phase_prefix(a) =~= phase_prefix(b).take(lifecycle_depth(a)));
}

/// Whether every `b` in a plan stands directly behind an `a`.
pub open spec fn directly_before(plan: Seq<PhaseModel>, a: Seq<char>, b: Seq<char>) -> bool {
    forall|i: int|
        0 <= i < plan.len() && (#[trigger] plan[i]).0 == b ==> i > 0 && plan[i - 1].0 == a
}

/// Whether a plan holds a phase.
pub open spec fn holds(plan: Seq<PhaseModel>, phase: Seq<char>) -> bool {
    exists|i: int| 0 <= i < plan.len() && (#[trigger] plan[i]).0 == phase
}

/// The names of the phases of the default lifecycle all differ, and none is `clean` or `site`.
proof fn phase_texts_differ()
    ensures
        forall|i: int, j: int|
            0 <= i < 11 && 0 <= j < 11 && (#[trigger] default_lifecycle()[i]).0 == (
            #[trigger] default_lifecycle()[j]).0 ==> i == j,
        forall|i: int|
            0 <= i < 11 ==> (#[trigger] default_lifecycle()[i]).0 != "clean"@
                && default_lifecycle()[i].0 != "site"@,
        "clean"@ != "site"@,
{
    reveal_strlit("clean");
    reveal_strlit("process-resources");
    reveal_strlit("compile");
    reveal_strlit("process-test-resources");
    reveal_strlit("test-compile");
    reveal_strlit("test");
    reveal_strlit("prepare-package");
    reveal_strlit("package");
    reveal_strlit("integration-test");
    reveal_strlit("verify");
    reveal_strlit("install");
    reveal_strlit("deploy");
    reveal_strlit("site");
    assert forall|i: int, j: int|
        0 <= i < 11 && 0 <= j < 11 && (#[trigger] default_lifecycle()[i]).0 == (
        #[trigger] default_lifecycle()[j]).0 implies i == j by {
        let x = default_lifecycle()[i].0;
        let y = default_lifecycle()[j].0;
        assert(x.len() == y.len());
        assert(x[0] == y[0] && x[1] == y[1]);
    }
    assert forall|i: int| 0 <= i < 11 implies (#[trigger] default_lifecycle()[i]).0 != "clean"@
        && default_lifecycle()[i].0 != "site"@ by {
        let x = default_lifecycle()[i].0;
        assert(x.len() == x.len());
        if x == "clean"@ {
            assert(x.len() == 5 && x[0] == 'c');
        }
        if x == "site"@ {
            assert(x.len() == 4 && x[0] == 's');
        }
    }
    assert("clean"@.len() != "site"@.len());
}

/// A plan keeps the order of the Maven lifecycle, phase by phase: resources before the sources
/// that need them, tests before the package, the package before the integration tests, these
/// before `verify`, and publishing last. Nothing is left out between two phases.
pub proof fn lifecycle_order_is_kept(p: MavenPhase, module_root: Seq<char>, include_clean: bool)
    ensures
        ({
            let plan = lifecycle_model(p, module_root, include_clean).plan;
            &&& directly_before(plan, "process-resources"@, "compile"@)
            &&& directly_before(plan, "compile"@, "process-test-resources"@)
            &&& directly_before(plan, "process-test-resources"@, "test-compile"@)
            &&& directly_before(plan, "test-compile"@, "test"@)
            &&& directly_before(plan, "test"@, "prepare-package"@)
            &&& directly_before(plan, "prepare-package"@, "package"@)
            &&& directly_before(plan, "package"@, "integration-test"@)
            &&& directly_before(plan, "integration-test"@, "verify"@)
            &&& directly_before(plan, "verify"@, "install"@)
            &&& directly_before(plan, "install"@, "deploy"@)
        }),
{
    phase_texts_differ();
    let plan = lifecycle_model(p, module_root, include_clean).plan;
    let off: int = if include_clean {
        1
    } else {
        0
    };
    let own = p == MavenPhase::Clean || p == MavenPhase::Site;
    assert(include_clean ==> plan[0].0 == "clean"@);
    assert(p == MavenPhase::Clean ==> plan[off].0 == "clean"@);
    assert(p == MavenPhase::Site ==> plan[off].0 == "site"@);
    let lc = default_lifecycle();
    assert(!own ==> forall|i: int|
        off <= i < plan.len() ==> (#[trigger] plan[i]) == lc[i - off]);
    assert(plan.len() <= 12);
    assert(directly_before(plan, "process-resources"@, "compile"@)) by {
        assert(lc[0].0 == "process-resources"@ && lc[1].0 == "compile"@);
        assert forall|i: int| 0 <= i < plan.len() && (#[trigger] plan[i]).0 == "compile"@ implies i > 0
            && plan[i - 1].0 == "process-resources"@ by {
            if i >= off && !own {
                assert(plan[i] == lc[i - off]);
                assert(i - off == 1);
                assert(plan[i - 1] == lc[i - 1 - off]);
            }
        }
    }
    assert(directly_before(plan, "compile"@, "process-test-resources"@)) by {
        assert(lc[1].0 == "compile"@ && lc[2].0 == "process-test-resources"@);
        assert forall|i: int| 0 <= i < plan.len() && (#[trigger] plan[i]).0 == "process-test-resources"@ implies i > 0
            && plan[i - 1].0 == "compile"@ by {
            if i >= off && !own {
                assert(plan[i] == lc[i - off]);
                assert(i - off == 2);
                assert(plan[i - 1] == lc[i - 1 - off]);
            }
        }
    }
    assert(directly_before(plan, "process-test-resources"@, "test-compile"@)) by {
        assert(lc[2].0 == "process-test-resources"@ && lc[3].0 == "test-compile"@);
        assert forall|i: int| 0 <= i < plan.len() && (#[trigger] plan[i]).0 == "test-compile"@ implies i > 0
            && plan[i - 1].0 == "process-test-resources"@ by {
            if i >= off && !own {
                assert(plan[i] == lc[i - off]);
                assert(i - off == 3);
                assert(plan[i - 1] == lc[i - 1 - off]);
            }
        }
    }
    assert(directly_before(plan, "test-compile"@, "test"@)) by {
        assert(lc[3].0 == "test-compile"@ && lc[4].0 == "test"@);
        assert forall|i: int| 0 <= i < plan.len() && (#[trigger] plan[i]).0 == "test"@ implies i > 0
            && plan[i - 1].0 == "test-compile"@ by {
            if i >= off && !own {
                assert(plan[i] == lc[i - off]);
                assert(i - off == 4);
                assert(plan[i - 1] == lc[i - 1 - off]);
            }
        }
    }
    assert(directly_before(plan, "test"@, "prepare-package"@)) by {
        assert(lc[4].0 == "test"@ && lc[5].0 == "prepare-package"@);
        assert forall|i: int| 0 <= i < plan.len() && (#[trigger] plan[i]).0 == "prepare-package"@ implies i > 0
            && plan[i - 1].0 == "test"@ by {
            if i >= off && !own {
                assert(plan[i] == lc[i - off]);
                assert(i - off == 5);
                assert(plan[i - 1] == lc[i - 1 - off]);
            }
        }
    }
    assert(directly_before(plan, "prepare-package"@, "package"@)) by {
        assert(lc[5].0 == "prepare-package"@ && lc[6].0 == "package"@);
        assert forall|i: int| 0 <= i < plan.len() && (#[trigger] plan[i]).0 == "package"@ implies i > 0
            && plan[i - 1].0 == "prepare-package"@ by {
            if i >= off && !own {
                assert(plan[i] == lc[i - off]);
                assert(i - off == 6);
                assert(plan[i - 1] == lc[i - 1 - off]);
            }
        }
    }
    assert(directly_before(plan, "package"@, "integration-test"@)) by {
        assert(lc[6].0 == "package"@ && lc[7].0 == "integration-test"@);
        assert forall|i: int| 0 <= i < plan.len() && (#[trigger] plan[i]).0 == "integration-test"@ implies i > 0
            && plan[i - 1].0 == "package"@ by {
            if i >= off && !own {
                assert(plan[i] == lc[i - off]);
                assert(i - off == 7);
                assert(plan[i - 1] == lc[i - 1 - off]);
            }
        }
    }
    assert(directly_before(plan, "integration-test"@, "verify"@)) by {
        assert(lc[7].0 == "integration-test"@ && lc[8].0 == "verify"@);
        assert forall|i: int| 0 <= i < plan.len() && (#[trigger] plan[i]).0 == "verify"@ implies i > 0
            && plan[i - 1].0 == "integration-test"@ by {
            if i >= off && !own {
                assert(plan[i] == lc[i - off]);
                assert(i - off == 8);
                assert(plan[i - 1] == lc[i - 1 - off]);
            }
        }
    }
    assert(directly_before(plan, "verify"@, "install"@)) by {
        assert(lc[8].0 == "verify"@ && lc[9].0 == "install"@);
        assert forall|i: int| 0 <= i < plan.len() && (#[trigger] plan[i]).0 == "install"@ implies i > 0
            && plan[i - 1].0 == "verify"@ by {
            if i >= off && !own {
                assert(plan[i] == lc[i - off]);
                assert(i - off == 9);
                assert(plan[i - 1] == lc[i - 1 - off]);
            }
        }
    }
    assert(directly_before(plan, "install"@, "deploy"@)) by {
        assert(lc[9].0 == "install"@ && lc[10].0 == "deploy"@);
        assert forall|i: int| 0 <= i < plan.len() && (#[trigger] plan[i]).0 == "deploy"@ implies i > 0
            && plan[i - 1].0 == "install"@ by {
            if i >= off && !own {
                assert(plan[i] == lc[i - off]);
                assert(i - off == 10);
                assert(plan[i - 1] == lc[i - 1 - off]);
            }
        }
    }
}

/// Where a plan begins and ends: with `process-resources`, behind `clean` where that was asked
/// for, and with the phase that the goal is named after. `clean` and `site` stand alone.
pub proof fn plan_begins_and_ends(p: MavenPhase, module_root: Seq<char>, include_clean: bool)
    ensures
        ({
            let plan = lifecycle_model(p, module_root, include_clean).plan;
            let first: int = if include_clean {
                1
            } else {
                0
            };
            &&& plan.len() > first
            &&& include_clean ==> plan[0].0 == "clean"@
            &&& plan.last().0 == (match p {
                MavenPhase::Clean => "clean"@,
                MavenPhase::Compile => "compile"@,
                MavenPhase::Test => "test"@,
                MavenPhase::Package => "package"@,
                MavenPhase::Verify => "verify"@,
                MavenPhase::Install => "install"@,
                MavenPhase::Deploy => "deploy"@,
                MavenPhase::Site => "site"@,
            })
            &&& if p == MavenPhase::Clean || p == MavenPhase::Site {
                plan.len() == first + 1
            } else {
                plan[first].0 == "process-resources"@
            }
        }),
{
}

/// No phase of a plan runs twice, but for `clean` where it is both the goal and asked for. So
/// what comes after the goal in the lifecycle is not run: no integration tests for `package`,
/// no tests for `compile`, nothing is installed by `verify` or published by `install`.
pub proof fn no_phase_runs_twice(
    p: MavenPhase,
    module_root: Seq<char>,
    include_clean: bool,
    i: int,
    j: int,
)
    requires
        p != MavenPhase::Clean,
        0 <= i < j < lifecycle_model(p, module_root, include_clean).plan.len(),
    ensures
        lifecycle_model(p, module_root, include_clean).plan[i].0 != lifecycle_model(
            p,
            module_root,
            include_clean,
        ).plan[j].0,
{
    phase_texts_differ();
    let plan = lifecycle_model(p, module_root, include_clean).plan;
    let off: int = if include_clean {
        1
    } else {
        0
    };
    let lc = default_lifecycle();
    if p != MavenPhase::Site {
        assert(plan[j] == lc[j - off]);
        if i >= off {
            assert(plan[i] == lc[i - off]);
        }
    }
}

/// What a goal leaves out: everything that the lifecycle has behind it, and `clean` unless it
/// was asked for.
pub proof fn later_phases_are_left_out(p: MavenPhase, module_root: Seq<char>, include_clean: bool)
    ensures
        ({
            let plan = lifecycle_model(p, module_root, include_clean).plan;
            &&& p == MavenPhase::Compile ==> !holds(plan, "test-compile"@) && !holds(plan, "test"@)
                && !holds(plan, "package"@)
            &&& p == MavenPhase::Test ==> !holds(plan, "prepare-package"@) && !holds(
                plan,
                "package"@,
            )
            &&& p == MavenPhase::Package ==> !holds(plan, "integration-test"@) && !holds(
                plan,
                "verify"@,
            )
            &&& p == MavenPhase::Verify ==> !holds(plan, "install"@) && !holds(plan, "deploy"@)
            &&& p == MavenPhase::Install ==> !holds(plan, "deploy"@)
            &&& !include_clean && p != MavenPhase::Clean ==> !holds(plan, "clean"@)
            &&& p != MavenPhase::Site ==> !holds(plan, "site"@)
        }),
{
    phase_texts_differ();
    let plan = lifecycle_model(p, module_root, include_clean).plan;
    let off: int = if include_clean {
        1
    } else {
        0
    };
    let lc = default_lifecycle();
    assert(include_clean ==> plan[0].0 == "clean"@);
    if p != MavenPhase::Clean && p != MavenPhase::Site {
        assert(forall|i: int| off <= i < plan.len() ==> (#[trigger] plan[i]) == lc[i - off]);
        assert(lc[3].0 == "test-compile"@ && lc[4].0 == "test"@ && lc[5].0 == "prepare-package"@
            && lc[6].0 == "package"@ && lc[7].0 == "integration-test"@ && lc[8].0 == "verify"@
            && lc[9].0 == "install"@ && lc[10].0 == "deploy"@);
    }
}

/// A phase of a plan may be run again unless it installs or publishes.
pub proof fn only_publishing_phases_are_not_retryable(
    p: MavenPhase,
    module_root: Seq<char>,
    include_clean: bool,
    i: int,
)
    requires
        0 <= i < lifecycle_model(p, module_root, include_clean).plan.len(),
    ensures
        ({
            let step = lifecycle_model(p, module_root, include_clean).plan[i];
            step.1 <==> step.0 != "install"@ && step.0 != "deploy"@
        }),
{
    phase_texts_differ();
    let plan = lifecycle_model(p, module_root, include_clean).plan;
    let off: int = if include_clean {
        1
    } else {
        0
    };
    let lc = default_lifecycle();
    assert(lc[9].0 == "install"@ && lc[10].0 == "deploy"@);
    if i >= off && p != MavenPhase::Clean && p != MavenPhase::Site {
        assert(plan[i] == lc[i - off]);
    }
}

/// The request for an action asks for the action's phase, in the module's directory and on its
/// `pom.xml`, and carries nothing of its own.
pub proof fn request_is_for_its_action(graph: GraphModel, phase: Seq<char>, project_root: Seq<char>)
    ensures
        ({
            let r = request_model(graph, phase, project_root);
            &&& r.mojo_coords == phase
            &&& r.working_directory == graph.module_root
            &&& r.pom_path == graph.pom_path
            &&& r.project_root == project_root
            &&& r.maven_compat == "4"@
            &&& r.stdout_stream_id == 1 && r.stderr_stream_id == 2
            &&& r.action_id.len() == 0
            &&& r.environment.len() == 0 && r.system_properties.len() == 0
            &&& r.arguments.len() == 0 && r.credentials is None
        }),
{
}

/// What is said of a plan, a credential or a request is said of what it holds.
pub proof fn models_are_of_their_values(g: ActionGraph, c: Credential, q: ActionRequest, i: int)
    ensures
        g@.module_root == g.module_root@,
        g@.pom_path == g.pom_path@,
        g@.plan.len() == g.actions@.len(),
        0 <= i < g.actions@.len() ==> g@.plan[i] == (g.actions@[i].phase@, g.actions@[i].retryable),
        c@.server_id == c.server_id@,
        c@.username == c.username@,
        c.password matches Some(pw) ==> c@.password == Some(pw@),
        c.password is None ==> c@.password is None,
        q@.action_id == q.action_id@,
        q@.mojo_coords == q.mojo_coords@,
        q@.project_root == q.project_root@,
        q@.pom_path == q.pom_path@,
        q@.working_directory == q.working_directory@,
        q@.maven_compat == q.maven_compat@,
        q@.stdout_stream_id == q.stdout_stream_id,
        q@.stderr_stream_id == q.stderr_stream_id,
        q@.arguments.len() == q.arguments@.len(),
        0 <= i < q.arguments@.len() ==> q@.arguments[i] == q.arguments@[i]@,
        q@.environment.len() == q.environment@.len(),
        0 <= i < q.environment@.len() ==> q@.environment[i] == (
            q.environment@[i].key@,
            q.environment@[i].value@,
        ),
        q@.system_properties.len() == q.system_properties@.len(),
        0 <= i < q.system_properties@.len() ==> q@.system_properties[i] == (
            q.system_properties@[i].key@,
            q.system_properties@[i].value@,
        ),
        q@.credentials is Some <==> q.credentials is Some,
{
}

} // verus!
