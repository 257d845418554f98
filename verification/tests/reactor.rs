//! Levels, discovery and runs of a reactor.

use std::collections::BTreeSet;

use barista_cli::action_graph::lifecycle_graph;
use barista_cli::cmd::maven_vocab::MavenPhase;
use barista_cli::cmd::reactor::{
    discover_modules, kahn_topo_levels, run, Discovery, ModuleId, ModuleNode, PomFacts, Reactor,
    ReactorError, ReactorRun, TaskEnd,
};
use barista_cli::cmd::schedule::{worker_permits, Step};

fn make_node(idx_letter: char, deps: Vec<usize>) -> ModuleNode {
    let id = ModuleId { group_id: "g".to_string(), artifact_id: format!("m-{idx_letter}") };
    ModuleNode {
        id,
        root: format!("/tmp/m-{idx_letter}"),
        action_graph: lifecycle_graph(MavenPhase::Verify, format!("/tmp/m-{idx_letter}"), false),
        depends_on: deps,
    }
}

#[test]
fn topo_levels_single_module_is_one_level() {
    let modules = vec![make_node('a', vec![])];
    let levels = kahn_topo_levels(&modules).unwrap();
    assert_eq!(levels, vec![vec![0]]);
}

#[test]
fn topo_levels_linear_chain_one_per_level() {
    let modules = vec![make_node('a', vec![]), make_node('b', vec![0]), make_node('c', vec![1])];
    let levels = kahn_topo_levels(&modules).unwrap();
    assert_eq!(levels, vec![vec![0], vec![1], vec![2]]);
}

#[test]
fn topo_levels_diamond_collapses_middle() {
    let modules = vec![
        make_node('a', vec![]),
        make_node('b', vec![0]),
        make_node('c', vec![0]),
        make_node('d', vec![1, 2]),
    ];
    let levels = kahn_topo_levels(&modules).unwrap();
    assert_eq!(levels, vec![vec![0], vec![1, 2], vec![3]]);
}

#[test]
fn topo_levels_fan_in_one_root_level() {
    let modules = vec![
        make_node('a', vec![]),
        make_node('b', vec![]),
        make_node('c', vec![]),
        make_node('d', vec![0, 1, 2]),
    ];
    let levels = kahn_topo_levels(&modules).unwrap();
    assert_eq!(levels, vec![vec![0, 1, 2], vec![3]]);
}

#[test]
fn topo_levels_fan_out_one_leaf_level() {
    let modules = vec![
        make_node('a', vec![]),
        make_node('b', vec![0]),
        make_node('c', vec![0]),
        make_node('d', vec![0]),
    ];
    let levels = kahn_topo_levels(&modules).unwrap();
    assert_eq!(levels, vec![vec![0], vec![1, 2, 3]]);
}

#[test]
fn topo_levels_disconnected_components_share_root_level() {
    let modules = vec![
        make_node('a', vec![]),
        make_node('b', vec![0]),
        make_node('c', vec![]),
        make_node('d', vec![2]),
    ];
    let levels = kahn_topo_levels(&modules).unwrap();
    assert_eq!(levels, vec![vec![0, 2], vec![1, 3]]);
}

#[test]
fn topo_levels_cycle_two_modules_errors() {
    let modules = vec![make_node('a', vec![1]), make_node('b', vec![0])];
    let err = kahn_topo_levels(&modules).unwrap_err();
    match err {
        ReactorError::Cycle { path } => {
            assert!(path.contains("m-a"));
            assert!(path.contains("m-b"));
            assert!(path.contains("->"));
        }
        _ => panic!("expected ReactorError::Cycle, got {err:?}"),
    }
}

#[test]
fn topo_levels_cycle_three_modules_errors() {
    let modules =
        vec![make_node('a', vec![2]), make_node('b', vec![0]), make_node('c', vec![1])];
    let err = kahn_topo_levels(&modules).unwrap_err();
    assert!(matches!(err, ReactorError::Cycle { .. }));
}

#[test]
fn topo_levels_empty_reactor_is_empty() {
    let modules: Vec<ModuleNode> = Vec::new();
    let levels = kahn_topo_levels(&modules).unwrap();
    assert!(levels.is_empty());
}

#[test]
fn topo_levels_within_level_indices_sorted() {
    let modules =
        vec![make_node('a', vec![]), make_node('b', vec![]), make_node('c', vec![])];
    let levels = kahn_topo_levels(&modules).unwrap();
    assert_eq!(levels, vec![vec![0, 1, 2]]);
}

#[test]
fn module_id_to_ga_renders_canonical_form() {
    let id = ModuleId { group_id: "com.example".into(), artifact_id: "core".into() };
    assert_eq!(id.to_ga(), "com.example:core");
}

fn pom(group: Option<&str>, parent: Option<&str>, artifact: &str, deps: &[&str], modules: &[&str]) -> Result<PomFacts, String> {
    Ok(PomFacts {
        group_id: group.map(String::from),
        parent_group_id: parent.map(String::from),
        artifact_id: artifact.to_string(),
        dependencies: deps
            .iter()
            .map(|a| ModuleId { group_id: "com.example".to_string(), artifact_id: a.to_string() })
            .collect(),
        modules: modules.iter().map(|m| m.to_string()).collect(),
    })
}

#[test]
fn discover_walks_modules_block_depth_first() {
    let reads = vec![
        pom(Some("com.example"), None, "parent", &[], &["mod-a", "mod-b"]),
        pom(None, Some("com.example"), "mod-a", &[], &[]),
        pom(None, Some("com.example"), "mod-b", &["mod-a"], &[]),
    ];
    let discovered = match discover_modules("/ws", &reads) {
        Discovery::Done(v) => v,
        other => panic!("{other:?}"),
    };
    assert_eq!(discovered.len(), 3);
    assert_eq!(discovered[0].id.artifact_id, "parent");
    assert_eq!(discovered[1].id.artifact_id, "mod-a");
    assert_eq!(discovered[2].id.artifact_id, "mod-b");
    assert_eq!(discovered[2].dependency_gas.len(), 1);
    assert_eq!(discovered[2].dependency_gas[0].artifact_id, "mod-a");
}

#[test]
fn discovery_asks_for_one_pom_at_a_time() {
    match discover_modules("/ws", &vec![]) {
        Discovery::Short(p) => assert_eq!(p, "/ws/pom.xml"),
        other => panic!("{other:?}"),
    }
    let reads = vec![pom(Some("g"), None, "parent", &[], &["a"])];
    match discover_modules("/ws", &reads) {
        Discovery::Short(p) => assert_eq!(p, "/ws/a/pom.xml"),
        other => panic!("{other:?}"),
    }
}

#[test]
fn reactor_from_two_module_diamond_orders_correctly() {
    let reads = vec![
        pom(Some("com.example"), None, "parent", &[], &["a", "b", "c"]),
        pom(None, Some("com.example"), "a", &[], &[]),
        pom(None, Some("com.example"), "b", &["a"], &[]),
        pom(None, Some("com.example"), "c", &["a"], &[]),
    ];
    let reactor = Reactor::from_project_root("/ws", MavenPhase::Verify, false, &reads).unwrap();
    assert_eq!(reactor.modules.len(), 4);
    assert_eq!(reactor.topo_levels.len(), 2);
    let l0: BTreeSet<usize> = reactor.topo_levels[0].iter().copied().collect();
    assert!(l0.contains(&0), "parent in level 0");
    assert!(l0.contains(&1), "a in level 0");
    let l1: BTreeSet<usize> = reactor.topo_levels[1].iter().copied().collect();
    assert!(l1.contains(&2), "b in level 1");
    assert!(l1.contains(&3), "c in level 1");
}

fn solo() -> Reactor {
    let reads = vec![pom(Some("com.example"), None, "solo", &[], &[])];
    Reactor::from_project_root("/ws", MavenPhase::Verify, false, &reads).unwrap()
}

#[test]
fn reactor_single_module_is_one_level_one_module() {
    let reactor = solo();
    assert!(reactor.is_single_module());
    assert_eq!(reactor.topo_levels, vec![vec![0]]);
}

#[test]
fn a_broken_pom_ends_the_discovery() {
    let err = Reactor::from_project_root(
        "/ws",
        MavenPhase::Verify,
        false,
        &vec![Err("eof".to_string())],
    )
    .unwrap_err();
    assert!(matches!(&err, ReactorError::Pom { detail, .. } if detail == "eof"), "{err:?}");
    assert!(err.to_message().contains("/ws/pom.xml"));
}

#[test]
fn a_level_with_an_error_ends_the_run_and_keeps_the_outcomes() {
    let reads = vec![
        pom(Some("com.example"), None, "parent", &[], &["a", "b", "c"]),
        pom(None, Some("com.example"), "a", &[], &[]),
        pom(None, Some("com.example"), "b", &["a"], &[]),
        pom(None, Some("com.example"), "c", &[], &[]),
    ];
    let reactor = Reactor::from_project_root("/ws", MavenPhase::Verify, false, &reads).unwrap();
    assert_eq!(reactor.topo_levels, vec![vec![0, 1, 3], vec![2]]);
    let mut state: ReactorRun<&str, &str> = ReactorRun::new(&reactor);
    assert_eq!(run(&reactor, 2, &mut state, None), Step::Dispatch { slot: 0, module: 0 });
    assert_eq!(run(&reactor, 2, &mut state, None), Step::Dispatch { slot: 1, module: 1 });
    assert_eq!(run(&reactor, 2, &mut state, None), Step::Wait);
    let end = Some((1, TaskEnd::Failed("second")));
    assert_eq!(run(&reactor, 2, &mut state, end), Step::Dispatch { slot: 2, module: 3 });
    assert_eq!(run(&reactor, 2, &mut state, Some((2, TaskEnd::Finished("done")))), Step::Wait);
    assert_eq!(run(&reactor, 2, &mut state, Some((0, TaskEnd::Failed("first")))), Step::Done);
    assert_eq!(run(&reactor, 2, &mut state, None), Step::Done);
    assert_eq!(state.outcomes, vec![None, None, None, Some("done")]);
    assert_eq!(state.finish(), Err("first"));
}

#[test]
fn a_lost_task_leaves_a_gap() {
    let reactor = solo();
    let mut state: ReactorRun<u8, u8> = ReactorRun::new(&reactor);
    assert_eq!(run(&reactor, 1, &mut state, None), Step::Dispatch { slot: 0, module: 0 });
    assert_eq!(run(&reactor, 1, &mut state, Some((0, TaskEnd::Lost))), Step::Done);
    assert_eq!(state.finish(), Ok(vec![None]));
}

#[test]
fn a_task_that_does_not_run_cannot_end() {
    let reactor = solo();
    let mut state: ReactorRun<u8, u8> = ReactorRun::new(&reactor);
    let end = Some((0, TaskEnd::Failed(1)));
    assert_eq!(run(&reactor, 1, &mut state, end), Step::Dispatch { slot: 0, module: 0 });
    assert_eq!(run(&reactor, 1, &mut state, Some((7, TaskEnd::Finished(1)))), Step::Wait);
    assert_eq!(run(&reactor, 1, &mut state, Some((0, TaskEnd::Finished(2)))), Step::Done);
    assert_eq!(run(&reactor, 1, &mut state, Some((0, TaskEnd::Failed(3)))), Step::Done);
    assert_eq!(state.finish(), Ok(vec![Some(2)]));
}

#[test]
fn at_least_one_module_runs_at_a_time() {
    assert_eq!(worker_permits(0), 1);
    assert_eq!(worker_permits(3), 3);
    let reactor = solo();
    let mut state: ReactorRun<u8, u8> = ReactorRun::new(&reactor);
    assert_eq!(run(&reactor, 0, &mut state, None), Step::Dispatch { slot: 0, module: 0 });
}

/// What a dispatcher saw of a run.
#[derive(Default)]
struct Recorder {
    order: Vec<String>,
    max_in_flight: usize,
}

/// Runs a reactor whose tasks end only when nothing more can be started, the oldest first.
fn record(reactor: &Reactor, workers_budget: usize) -> Recorder {
    let mut seen = Recorder::default();
    let mut state: ReactorRun<String, String> = ReactorRun::new(reactor);
    let mut in_flight: Vec<(usize, String)> = Vec::new();
    let mut end = None;
    loop {
        match run(reactor, workers_budget, &mut state, end.take()) {
            Step::Dispatch { slot, module } => {
                in_flight.push((slot, reactor.modules[module].id.artifact_id.clone()));
                seen.max_in_flight = seen.max_in_flight.max(in_flight.len());
            }
            Step::Wait => {
                let (slot, name) = in_flight.remove(0);
                seen.order.push(name.clone());
                end = Some((slot, TaskEnd::Finished(name)));
            }
            Step::Done => break,
        }
    }
    let outcomes = state.finish().unwrap();
    assert_eq!(outcomes.len(), reactor.modules.len());
    seen
}

#[test]
fn run_dispatches_independent_modules_in_parallel() {
    let modules = vec![make_node('a', vec![]), make_node('b', vec![]), make_node('c', vec![])];
    let reactor = Reactor { modules, topo_levels: vec![vec![0, 1, 2]] };
    let seen = record(&reactor, 3);
    assert_eq!(seen.max_in_flight, 3, "all three modules should run concurrently when budget allows");
}

#[test]
fn run_respects_workers_budget_at_one() {
    let modules = vec![make_node('a', vec![]), make_node('b', vec![]), make_node('c', vec![])];
    let reactor = Reactor { modules, topo_levels: vec![vec![0, 1, 2]] };
    let seen = record(&reactor, 1);
    assert_eq!(seen.max_in_flight, 1, "workers=1 must serialize even an independent level");
}

#[test]
fn run_respects_level_ordering() {
    let modules = vec![
        make_node('a', vec![]),
        make_node('b', vec![0]),
        make_node('c', vec![0]),
        make_node('d', vec![1, 2]),
    ];
    let reactor = Reactor { modules, topo_levels: vec![vec![0], vec![1, 2], vec![3]] };
    let order = record(&reactor, 4).order;
    let pos = |name: &str| order.iter().position(|x| x == name).unwrap();
    assert!(pos("m-a") < pos("m-b"), "a before b");
    assert!(pos("m-a") < pos("m-c"), "a before c");
    assert!(pos("m-b") < pos("m-d"), "b before d");
    assert!(pos("m-c") < pos("m-d"), "c before d");
}

#[test]
fn a_run_starts_every_module_once_and_after_its_dependencies() {
    let reads = vec![
        pom(Some("com.example"), None, "parent", &[], &["a", "b", "c"]),
        pom(None, Some("com.example"), "a", &[], &[]),
        pom(None, Some("com.example"), "b", &["a"], &[]),
        pom(None, Some("com.example"), "c", &["b", "a"], &[]),
    ];
    let reactor = Reactor::from_project_root("/ws", MavenPhase::Verify, false, &reads).unwrap();
    let mut state: ReactorRun<usize, &str> = ReactorRun::new(&reactor);
    let mut started: Vec<usize> = vec![];
    let mut in_flight: Vec<(usize, usize)> = vec![];
    let mut ended: Vec<usize> = vec![];
    let mut end = None;
    loop {
        match run(&reactor, 2, &mut state, end.take()) {
            Step::Dispatch { slot, module } => {
                assert!(!started.contains(&module));
                assert!(reactor.modules[module].depends_on.iter().all(|d| ended.contains(d)));
                started.push(module);
                in_flight.push((slot, module));
                assert!(in_flight.len() <= 2);
            }
            Step::Wait => {
                let (slot, module) = in_flight.pop().unwrap();
                ended.push(module);
                end = Some((slot, TaskEnd::Finished(module)));
            }
            Step::Done => break,
        }
    }
    assert_eq!(started, vec![0, 1, 2, 3]);
    assert_eq!(state.finish(), Ok(vec![Some(0), Some(1), Some(2), Some(3)]));
}

#[test]
fn a_level_without_modules_is_passed_over() {
    let modules = vec![make_node('a', vec![]), make_node('b', vec![])];
    let reactor = Reactor { modules, topo_levels: vec![vec![], vec![0], vec![], vec![1], vec![]] };
    assert_eq!(record(&reactor, 4).order, vec!["m-a", "m-b"]);
    let empty = Reactor { modules: vec![], topo_levels: vec![] };
    assert_eq!(record(&empty, 4).max_in_flight, 0);
}
