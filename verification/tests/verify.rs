//! Lifecycle commands.

use barista_cli::action_graph::{lifecycle_graph, Credential};
use barista_cli::cli::ScopeArg;
use barista_cli::cmd::ci_repro::build_seed;
use barista_cli::cmd::maven_vocab::MavenPhase;
use barista_cli::cmd::reactor::{ModuleId, PomFacts, Reactor};
use barista_cli::cmd::schedule::Step;
use barista_cli::cmd::verify::{
    action_status_str, aggregate, build_deploy_credentials, can_add_up, classify_respawn_error,
    dispatch_lifecycle, exit_code_of, panicked_module, prepare, resolve_socket_dir,
    resolve_workers_from_config, run, run_phase, runtime_error, settled_exit_code, Action, Event,
    LifecycleConfig, LifecycleEnv, ModuleEnd, ModuleOutcome, ModuleRun, ModulesRun, Printed, Server, Stage,
    VerifyError,
};
use barista_cli::daemon::launcher::LauncherError;
use barista_cli::daemon::respawn::{ActionResult, RespawnError, RespawnOutcome};
use barista_cli::facts::Binding;
use barista_cli::output::report::{MojoInvocation, VerifyReport};
use barista_cli::project::{project_config, ProjectRoot, ResolveError, RootSource};

fn server(id: &str, password: &str) -> Server {
    Server { id: id.into(), username: Some("u".into()), password: Some(password.into()) }
}

#[test]
fn action_status_str_known_variants() {
    assert_eq!(action_status_str(0), "unknown");
    assert_eq!(action_status_str(1), "success");
    assert_eq!(action_status_str(2), "failure");
    assert_eq!(action_status_str(3), "timeout");
    assert_eq!(action_status_str(4), "crashed");
    assert_eq!(action_status_str(5), "cancelled");
}

#[test]
fn action_status_str_unknown_defaults_to_unknown() {
    assert_eq!(action_status_str(99), "unknown");
    assert_eq!(action_status_str(-1), "unknown");
}

#[test]
fn resolve_socket_dir_expands_tilde() {
    let p = resolve_socket_dir("~/.barista/run", Some("/var/test-home"));
    assert_eq!(p, "/var/test-home/.barista/run");
    assert_eq!(resolve_socket_dir("/srv/run", Some("/var/test-home")), "/srv/run");
}

#[test]
fn verify_error_exit_codes_match_pour_convention() {
    let e = VerifyError::Pour { detail: "x".into() };
    assert_eq!(e.exit_code(), 2);
    let e = VerifyError::Workers { detail: "x".into() };
    assert_eq!(e.exit_code(), 2);
    let e = VerifyError::Ipc { phase: "compile".into(), detail: "x".into() };
    assert_eq!(e.exit_code(), 1);
    let e = VerifyError::PersistentCrash { phase: "compile".into() };
    assert_eq!(e.exit_code(), 1);
}

#[test]
fn deploy_auth_errors_use_exit_code_3() {
    let e = VerifyError::DeployAuthEncrypted { server_id: "central".into() };
    assert_eq!(e.exit_code(), 3, "encrypted-credential errors → exit 3");

    let e = VerifyError::DaemonError {
        phase: "deploy".into(),
        code: "BAR-DEPLOY-AUTH-INVALID".into(),
        message: "401".into(),
    };
    assert_eq!(e.exit_code(), 3, "daemon-reported auth-invalid errors → exit 3");

    let e = VerifyError::DaemonError {
        phase: "deploy".into(),
        code: "BAR-DEPLOY-AUTH-MISSING".into(),
        message: "no creds".into(),
    };
    assert_eq!(e.exit_code(), 3, "daemon-reported missing-creds errors → exit 3");

    let e = VerifyError::DaemonError {
        phase: "compile".into(),
        code: "BAR-MAVEN-CORE".into(),
        message: "boom".into(),
    };
    assert_eq!(e.exit_code(), 1);
}

#[test]
fn build_deploy_credentials_skips_blank_server_ids() {
    let servers = vec![
        Server { id: String::new(), username: Some("anon".into()), password: Some("p".into()) },
        server("real-repo", "p"),
    ];
    let entries = build_deploy_credentials(&servers).unwrap();
    assert_eq!(entries.len(), 1, "blank-id server entries are skipped");
    assert_eq!(entries[0].server_id, "real-repo");
}

#[test]
fn build_deploy_credentials_surfaces_encrypted_passwords() {
    let servers =
        vec![server("encrypted-repo", "{COQLCE53YjsoAtFt3PNZuyP+sb9D9Mr7Hp0/mAtNNNk=}")];
    let err = build_deploy_credentials(&servers).unwrap_err();
    match err {
        VerifyError::DeployAuthEncrypted { server_id } => {
            assert_eq!(server_id, "encrypted-repo");
        }
        other => panic!("expected DeployAuthEncrypted, got {other:?}"),
    }
}

#[test]
fn build_deploy_credentials_passes_plaintext_through() {
    let entries = build_deploy_credentials(&vec![server("plain", "hunter2")]).unwrap();
    assert_eq!(entries.len(), 1);
    assert_eq!(entries[0].password, Some("hunter2".to_string()));
}

fn ended(exit_code: i32, error_code: Option<&str>) -> RespawnOutcome {
    RespawnOutcome {
        result: ActionResult {
            action_id: "id".into(),
            exit_code,
            status: if exit_code == 0 { 1 } else { 2 },
            failure_message: String::new(),
            error_code: error_code.map(String::from),
        },
        respawns: 1,
        progress: vec![],
    }
}

#[test]
fn a_failure_ends_a_module() {
    let graph = lifecycle_graph(MavenPhase::Compile, "/p".to_string(), false);
    let mut run = ModuleRun::new(&graph, "/p", &vec![]);
    let first = run.next_request(None, None).unwrap();
    assert_eq!(first.mojo_coords, graph.actions[0].phase);
    assert!(run.next_is_retryable());
    run.record(ended(7, Some("BAR-X")), 12);
    assert!(run.next_request(None, None).is_none());
    let o = run.finish();
    assert_eq!((o.executed, o.failed_actions, o.respawns), (1, 1, 1));
    assert_eq!(o.invocations[0].status, "failure");
    assert_eq!(o.invocations[0].error_code, "BAR-X");
    assert_eq!(o.invocations[0].duration_ms, 12);
}

#[test]
fn credentials_go_with_deploy_alone() {
    let graph = lifecycle_graph(MavenPhase::Deploy, "/p".to_string(), false);
    let creds = vec![Credential {
        server_id: "central".into(),
        username: "u".into(),
        password: Some("p".into()),
    }];
    let mut run = ModuleRun::new(&graph, "/p", &vec![]);
    while let Some(req) = run.next_request(Some(&creds), None) {
        assert_eq!(req.credentials.is_some(), req.mojo_coords == "deploy");
        run.record(ended(0, None), 1);
    }
    assert_eq!(run.finish().executed, graph.actions.len());
}

#[test]
fn the_users_arguments_reach_every_request() {
    let graph = lifecycle_graph(MavenPhase::Compile, "/p".to_string(), false);
    let args = vec!["-DskipTests".to_string(), "-Dproject.build.outputTimestamp=7".to_string()];
    let seed = build_seed(&vec![], Some(1_700_000_000));
    let mut run = ModuleRun::new(&graph, "/p", &args);
    let mut seen = 0;
    while let Some(req) = run.next_request(None, Some(&seed)) {
        assert_eq!(req.arguments, args);
        assert!(req.system_properties.iter().all(|b| b.key != "project.build.outputTimestamp"));
        run.record(ended(0, None), 1);
        seen += 1;
    }
    assert_eq!(seen, graph.actions.len());
}

fn outcome(executed: usize, failed: usize, respawns: u32) -> ModuleOutcome {
    ModuleOutcome { invocations: vec![], executed, failed_actions: failed, respawns }
}

#[test]
fn outcomes_are_summed_up() {
    let o = aggregate(vec![Some(Ok(outcome(3, 0, 1))), None, Some(Ok(outcome(2, 1, 4)))]).unwrap();
    assert_eq!((o.executed, o.failed_actions, o.respawns), (5, 1, 5));
    let e = aggregate(vec![Some(Err(VerifyError::Config("x".into()))), Some(Ok(outcome(1, 0, 0)))]);
    assert!(matches!(e, Err(VerifyError::Config(_))));
}

#[test]
fn sums_that_do_not_fit_are_seen_beforehand() {
    assert!(can_add_up(&vec![Some(Ok(outcome(usize::MAX, 0, 0))), None, Some(Ok(outcome(0, 0, 0)))]));
    assert!(!can_add_up(&vec![Some(Ok(outcome(usize::MAX, 0, 0))), Some(Ok(outcome(1, 0, 0)))]));
    assert!(!can_add_up(&vec![Some(Ok(outcome(0, usize::MAX, 0))), Some(Ok(outcome(0, 1, 0)))]));
    assert!(can_add_up(&vec![
        Some(Ok(outcome(usize::MAX, 0, 0))),
        Some(Err(VerifyError::Config("x".into()))),
        Some(Ok(outcome(1, 0, 0))),
    ]));
}

fn two_levels() -> Reactor {
    let pom = |artifact: &str, deps: Vec<ModuleId>, modules: Vec<String>| {
        Ok(PomFacts {
            group_id: Some("g".into()),
            parent_group_id: None,
            artifact_id: artifact.into(),
            dependencies: deps,
            modules,
        })
    };
    let a = ModuleId { group_id: "g".into(), artifact_id: "a".into() };
    let reads = vec![
        pom("parent", vec![], vec!["a".into(), "b".into()]),
        pom("a", vec![], vec![]),
        pom("b", vec![a], vec![]),
    ];
    Reactor::from_project_root("/p", MavenPhase::Verify, false, &reads).unwrap()
}

#[test]
fn a_module_of_several_stays_within_its_directory() {
    let reactor = two_levels();
    let run = ModuleRun::of_module(&reactor.modules[2], &vec![]);
    let req = run.next_request(None, None).unwrap();
    assert_eq!(req.project_root, "/p/b");
    assert_eq!(req.working_directory, "/p/b");
    assert_eq!(req.pom_path, "/p/b/pom.xml");
    let whole = ModuleRun::new(&reactor.modules[2].action_graph, "/p", &vec![]);
    assert_eq!(whole.next_request(None, None).unwrap().project_root, "/p");
}

#[test]
fn a_failed_module_stops_the_levels_after_it() {
    let reactor = two_levels();
    let mut run = ModulesRun::new(&reactor);
    assert_eq!(run.step(&reactor, 1, None), Step::Dispatch { slot: 0, module: 0 });
    assert_eq!(run.step(&reactor, 1, None), Step::Wait);
    let end = Some((0, ModuleEnd::Ended(Ok(outcome(3, 1, 0)))));
    assert_eq!(run.step(&reactor, 1, end), Step::Dispatch { slot: 1, module: 1 });
    let end = Some((1, ModuleEnd::Ended(Ok(outcome(5, 0, 0)))));
    assert_eq!(run.step(&reactor, 1, end), Step::Done);
    assert!(run.can_finish());
    let o = run.finish().unwrap();
    assert_eq!((o.executed, o.failed_actions), (8, 1));
}

#[test]
fn levels_follow_each_other() {
    let reactor = two_levels();
    let mut run = ModulesRun::new(&reactor);
    assert_eq!(run.step(&reactor, 4, None), Step::Dispatch { slot: 0, module: 0 });
    assert_eq!(run.step(&reactor, 4, None), Step::Dispatch { slot: 1, module: 1 });
    assert_eq!(run.step(&reactor, 4, None), Step::Wait);
    assert_eq!(
        run.step(&reactor, 4, Some((1, ModuleEnd::Ended(Ok(outcome(5, 0, 0)))))),
        Step::Wait,
    );
    assert_eq!(
        run.step(&reactor, 4, Some((0, ModuleEnd::Ended(Ok(outcome(3, 0, 0)))))),
        Step::Dispatch { slot: 0, module: 2 },
    );
    let end = Some((0, ModuleEnd::Ended(Err(panicked_module("/p/b", "boom")))));
    assert_eq!(run.step(&reactor, 4, end), Step::Done);
    let e = run.finish().unwrap_err();
    assert_eq!(e.to_message(), "phase reactor: ipc: module task panicked at \"/p/b\": boom");
    let mut lost = ModulesRun::new(&reactor);
    assert_eq!(lost.step(&reactor, 1, None), Step::Dispatch { slot: 0, module: 0 });
    let end = Some((0, ModuleEnd::Lost));
    assert_eq!(lost.step(&reactor, 1, end), Step::Dispatch { slot: 1, module: 1 });
    let end = Some((1, ModuleEnd::Ended(Ok(outcome(1, 0, 0)))));
    assert_eq!(lost.step(&reactor, 1, end), Step::Done);
    assert_eq!(
        runtime_error("no threads").to_message(),
        "workers config: tokio multi-thread runtime build: no threads",
    );
}

#[test]
fn errors_of_the_daemon_are_classified() {
    let text = |e: RespawnError| classify_respawn_error("test", e).to_message();
    assert_eq!(text(RespawnError::Ipc { detail: "x".into() }), "phase test: ipc: x");
    assert_eq!(
        text(RespawnError::Connect { socket: "/s".into(), source: "x".into() }),
        "phase test: connect to daemon at \"/s\": x",
    );
    assert_eq!(
        text(RespawnError::DaemonProtocolError { code: "C".into(), message: "m".into() }),
        "phase test: daemon error: C: m",
    );
    assert!(text(RespawnError::PersistentCrash).starts_with("phase test: persistent daemon crash"));
    assert_eq!(
        text(RespawnError::PrematureClose),
        "phase test: daemon disconnected before action terminated",
    );
    assert!(matches!(
        classify_respawn_error("test", RespawnError::Launcher(LauncherError::JavaNotFound)),
        VerifyError::Launcher(LauncherError::JavaNotFound)
    ));
}

fn config(servers: Vec<Server>) -> LifecycleConfig {
    LifecycleConfig { socket_dir: "~/.barista/run".into(), idle_shutdown_secs: 1800, servers }
}

fn env(workers: Option<&str>) -> LifecycleEnv {
    LifecycleEnv {
        workers_expr: workers.map(String::from),
        cores: 8,
        home: Some("/home/me".into()),
        vars: vec![],
        git_head: Some(1_700_000_000),
    }
}

#[test]
fn everything_is_settled_before_the_daemon_starts() {
    let p = prepare(MavenPhase::Deploy, true, &vec!["-T2".into()], &config(vec![server("s", "p")]), &env(Some("0.5C"))).unwrap();
    assert_eq!(p.plan.workers, 4);
    assert_eq!(p.arguments, vec!["-T2".to_string()]);
    assert_eq!(p.plan.socket_path, "/home/me/.barista/run/barback.sock");
    assert_eq!(p.credentials.unwrap().len(), 1);
    assert_eq!(p.seed.unwrap().source_date_epoch, "1700000000");
    let p = prepare(MavenPhase::Test, false, &vec![], &config(vec![server("s", "{x}")]), &env(None)).unwrap();
    assert!(p.credentials.is_none() && p.seed.is_none());
    assert_eq!(p.plan.workers, 8);
    assert!(matches!(
        prepare(MavenPhase::Deploy, false, &vec![], &config(vec![server("s", "{x}")]), &env(Some("bad"))),
        Err(VerifyError::DeployAuthEncrypted { .. })
    ));
    assert!(matches!(
        prepare(MavenPhase::Test, false, &vec![], &config(vec![]), &env(Some("bad"))),
        Err(VerifyError::Workers { detail }) if detail.contains("bad")
    ));
    assert!(resolve_workers_from_config(None, 3).unwrap() == 3);
}

#[test]
fn variables_that_the_user_sets_are_not_sent() {
    let mut set = env(None);
    set.vars = vec![
        Binding { key: "TZ".into(), value: "Europe/Berlin".into() },
        Binding { key: "BARISTA_SOURCE_DATE_EPOCH".into(), value: "x".into() },
    ];
    let p = prepare(MavenPhase::Test, true, &vec![], &config(vec![]), &set).unwrap();
    let seed = p.seed.unwrap();
    let keys: Vec<&str> = seed.env.iter().map(|b| b.key.as_str()).collect();
    assert_eq!(keys, vec!["SOURCE_DATE_EPOCH", "LC_ALL"]);
    assert_eq!(seed.source_date_epoch, "1700000000");
    let p = prepare(MavenPhase::Test, true, &vec![], &config(vec![]), &env(None)).unwrap();
    assert_eq!(p.seed.unwrap().env.len(), 3);
}

fn root() -> ProjectRoot {
    ProjectRoot { root: "/p".into(), pom: "/p/pom.xml".into(), source: RootSource::WalkUp }
}

fn solo() -> Reactor {
    let reads = vec![Ok(PomFacts {
        group_id: Some("g".into()),
        parent_group_id: None,
        artifact_id: "a".into(),
        dependencies: vec![],
        modules: vec![],
    })];
    Reactor::from_project_root("/p", MavenPhase::Verify, false, &reads).unwrap()
}

#[test]
fn a_command_goes_from_root_to_report() {
    let step = |s, e| dispatch_lifecycle(MavenPhase::Verify, false, &None, &vec![], s, e);
    let (s, a) = step(Stage::Root, Event::Root(Ok(root())));
    assert!(matches!(a, Action::LoadConfig(p) if p == "/p/barista.toml"));
    let (s, a) = step(s, Event::Config(Ok(config(vec![]))));
    match a {
        Action::Pour(p) => {
            assert_eq!((p.target, p.scope, p.dry_run), (None, ScopeArg::Compile, false));
        }
        other => panic!("{other:?}"),
    }
    let (s, a) = step(s, Event::Pour(Ok(())));
    assert!(matches!(
        a,
        Action::DiscoverModules { phase: MavenPhase::Verify, include_clean: false }
    ));
    let (s, a) = step(s, Event::Modules(Ok(solo()), env(None)));
    assert!(matches!(a, Action::Launch));
    let (s, a) = step(s, Event::Launch(Ok(())));
    assert!(matches!(a, Action::DispatchSingle));
    let (_, a) = step(s, Event::Dispatch(Ok(outcome(5, 0, 0)), 42));
    match a {
        Action::Finish(Ok(r)) => {
            assert_eq!((r.phase.as_str(), r.executed_actions, r.duration_ms), ("verify", 5, 42));
            assert_eq!(r.planned_actions, solo().modules[0].action_graph.actions.len());
        }
        other => panic!("{other:?}"),
    }
}

#[test]
fn the_users_arguments_are_kept_up_to_the_dispatch() {
    let args = vec!["-Dx=y".to_string()];
    let step = |s, e| dispatch_lifecycle(MavenPhase::Verify, true, &None, &args, s, e);
    let (s, _) = step(Stage::Root, Event::Root(Ok(root())));
    let (s, _) = step(s, Event::Config(Ok(config(vec![]))));
    let (s, _) = step(s, Event::Pour(Ok(())));
    let (s, _) = step(s, Event::Modules(Ok(solo()), env(None)));
    let (s, _) = step(s, Event::Launch(Ok(())));
    match s {
        Stage::Dispatch { prepared, .. } => {
            assert_eq!(prepared.arguments, args);
            assert!(prepared.seed.is_some());
        }
        other => panic!("{other:?}"),
    }
}

#[test]
fn a_named_configuration_is_loaded_instead() {
    let named = Some("/etc/b.toml".to_string());
    let (_, a) = dispatch_lifecycle(
        MavenPhase::Test,
        false,
        &named,
        &vec![],
        Stage::Root,
        Event::Root(Ok(root())),
    );
    assert!(matches!(a, Action::LoadConfig(p) if p == "/etc/b.toml"));
    assert_eq!(project_config(&named, "/p"), "/etc/b.toml");
    assert_eq!(project_config(&None, "/p"), "/p/barista.toml");
}

#[test]
fn clean_does_not_pour() {
    let (s, _) = dispatch_lifecycle(MavenPhase::Clean, false, &None, &vec![], Stage::Root, Event::Root(Ok(root())));
    let (_, a) = dispatch_lifecycle(MavenPhase::Clean, false, &None, &vec![], s, Event::Config(Ok(config(vec![]))));
    assert!(matches!(a, Action::DiscoverModules { phase: MavenPhase::Clean, .. }));
}

#[test]
fn the_first_failure_ends_a_command() {
    let (s, a) = dispatch_lifecycle(
        MavenPhase::Test,
        false,
        &None,
        &vec![],
        Stage::Root,
        Event::Root(Err(ResolveError::NoHome)),
    );
    assert!(matches!(s, Stage::Over));
    match a {
        Action::Finish(Err(e)) => {
            assert_eq!(e.exit_code(), 2);
            assert!(e.to_message().starts_with("project setup: "));
        }
        other => panic!("{other:?}"),
    }
}

fn report(failed: usize, code: &str) -> VerifyReport {
    VerifyReport {
        project_root: "/p".into(),
        phase: "deploy".into(),
        planned_actions: 1,
        executed_actions: 1,
        failed_actions: failed,
        daemon_respawns: 0,
        invocations: vec![MojoInvocation {
            phase: "deploy".into(),
            mojo: "m".into(),
            module: "/p".into(),
            exit_code: failed as i32,
            status: "failure".into(),
            failure_message: String::new(),
            error_code: code.into(),
            duration_ms: 1,
        }],
        duration_ms: 1,
    }
}

#[test]
fn exit_codes_tell_credentials_from_code() {
    assert_eq!(exit_code_of(&report(0, "BAR-DEPLOY-AUTH-INVALID")), 0);
    assert_eq!(exit_code_of(&report(1, "BAR-X")), 1);
    assert_eq!(exit_code_of(&report(1, "BAR-DEPLOY-AUTH-INVALID")), 3);
}

#[test]
fn quiet_hides_reports_and_failures_to_write_count() {
    assert_eq!(run_phase(&Ok(report(0, "")), false, true), (Printed::Report, 0));
    assert_eq!(run(&Ok(report(0, "")), true, true), (Printed::Nothing, 0));
    let e = || Err(VerifyError::Config("x".into()));
    assert_eq!(run_phase(&e(), true, true), (Printed::ErrorText, 2));
    assert_eq!(run_phase(&e(), true, false), (Printed::ErrorDocument, 2));
    assert_eq!(settled_exit_code(Printed::Report, 0, false, true), 1);
    assert_eq!(settled_exit_code(Printed::ErrorDocument, 2, false, true), 2);
    assert_eq!(settled_exit_code(Printed::Report, 0, true, false), 1);
}
