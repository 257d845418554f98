//! Plans and requests.

use barista_cli::action_graph::{
    build_action_request, clone_graph, lifecycle_graph, shot_graph, verify_graph,
    verify_phase_prefix, ShotGraphError,
};
use barista_cli::cmd::maven_vocab::MavenPhase;

#[test]
fn verify_graph_has_full_lifecycle_prefix() {
    let g = verify_graph("/tmp/project".to_string(), false);
    let names: Vec<&str> = g.actions.iter().map(|a| a.phase).collect();
    assert_eq!(names, verify_phase_prefix());
}

#[test]
fn verify_graph_with_clean_prepends_clean() {
    let g = verify_graph("/tmp/project".to_string(), true);
    assert_eq!(g.actions[0].phase, "clean");
    assert_eq!(g.actions[1].phase, "process-resources");
    assert_eq!(g.actions.len(), 1 + verify_phase_prefix().len());
}

#[test]
fn verify_graph_phases_are_all_retryable_in_v01() {
    let g = verify_graph("/tmp/project".to_string(), true);
    for a in &g.actions {
        assert!(a.retryable, "phase {} must be retryable in v0.1", a.phase);
    }
}

#[test]
fn build_action_request_populates_minimum_fields() {
    let g = verify_graph("/tmp/project".to_string(), false);
    let action = &g.actions[1]; // "compile"
    let req = build_action_request(&g, action, "/tmp/project");
    assert_eq!(req.mojo_coords, "compile");
    assert_eq!(req.project_root, "/tmp/project");
    assert_eq!(req.pom_path, "/tmp/project/pom.xml");
    assert_eq!(req.working_directory, "/tmp/project");
    assert_eq!(req.maven_compat, "4");
    assert_ne!(req.stdout_stream_id, req.stderr_stream_id);
}

#[test]
fn pom_path_is_module_root_join_pom_xml() {
    let g = verify_graph("/projects/foo".to_string(), false);
    assert_eq!(g.pom_path, "/projects/foo/pom.xml");
}

#[test]
fn later_goal_extends_the_earlier_plan() {
    let compile = lifecycle_graph(MavenPhase::Compile, "/p".to_string(), false);
    let install = lifecycle_graph(MavenPhase::Install, "/p".to_string(), false);
    let short: Vec<&str> = compile.actions.iter().map(|a| a.phase).collect();
    let long: Vec<&str> = install.actions.iter().map(|a| a.phase).collect();
    assert!(long.starts_with(&short));
    assert_eq!(long.last(), Some(&"install"));
}

#[test]
fn publishing_phases_are_not_retryable() {
    let deploy = lifecycle_graph(MavenPhase::Deploy, "/p".to_string(), false);
    for a in &deploy.actions {
        assert_eq!(a.retryable, a.phase != "install" && a.phase != "deploy", "{}", a.phase);
    }
}

#[test]
fn shot_graph_takes_phase_names_only() {
    let g = shot_graph("/p".to_string(), "test").unwrap();
    assert_eq!(g.actions.last().unwrap().phase, "test");
    match shot_graph("/p".to_string(), "clean package") {
        Err(ShotGraphError::UnknownPhase { expr }) => assert_eq!(expr, "clean package"),
        Ok(_) => panic!("two phases in one expression"),
    }
    let message = shot_graph("/p".to_string(), "brew").unwrap_err().to_message();
    assert_eq!(message, "unknown lifecycle phase `brew`");
}

#[test]
fn cloned_graph_is_the_same_plan() {
    let g = lifecycle_graph(MavenPhase::Package, "/p".to_string(), true);
    let c = clone_graph(&g);
    assert_eq!(format!("{g:?}"), format!("{c:?}"));
}
