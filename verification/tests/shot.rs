//! Shots.

use barista_cli::cmd::shot::{
    cache_root, cache_warning, is_warm_path, last_shot_cache_path, outcome_shown, pom_mtime_ns,
    prepare, project_root_key, read_pid, run, run_inner, split_expr, update_last_shot_cache, Action,
    CacheWriteError, Event, LastShotCache, ShotError, ShotRoute, Stage, WarmFacts,
    CACHE_SCHEMA_VERSION,
};
use barista_cli::cmd::verify::{LifecycleConfig, LifecycleEnv, ModuleOutcome, Printed};
use barista_cli::facts::Binding;
use barista_cli::project::{ProjectRoot, RootSource};

#[test]
fn split_expr_pulls_first_arg() {
    let v = vec!["test".to_string(), "-DskipTests=false".to_string()];
    let (expr, rest) = split_expr(&v).unwrap();
    assert_eq!(expr, "test");
    assert_eq!(rest, &["-DskipTests=false".to_string()]);
}

#[test]
fn split_expr_empty_returns_none() {
    let v: Vec<String> = vec![];
    assert!(split_expr(&v).is_none());
}

#[test]
fn split_expr_single_arg_has_empty_rest() {
    let v = vec!["compile".to_string()];
    let (expr, rest) = split_expr(&v).unwrap();
    assert_eq!(expr, "compile");
    assert!(rest.is_empty());
}

#[test]
fn project_root_key_is_deterministic_for_same_path() {
    let a = project_root_key("/tmp/barista-test-project-1");
    let b = project_root_key("/tmp/barista-test-project-1");
    assert_eq!(a, b);
    assert_eq!(a.len(), 64, "key should be 64-char hex SHA-256");
}

#[test]
fn project_root_key_differs_for_different_paths() {
    let a = project_root_key("/tmp/proj-a");
    let b = project_root_key("/tmp/proj-b");
    assert_ne!(a, b);
}

#[test]
fn project_root_key_is_the_sha256_of_the_path() {
    assert_eq!(
        project_root_key("abc"),
        "ba7816bf8f01cfea414140de5dae2223b00361a396177a9cb410ff61f20015ad",
    );
}

fn recorded() -> LastShotCache {
    LastShotCache {
        version: CACHE_SCHEMA_VERSION,
        lockfile_signature: "abc123".to_string(),
        pom_mtime_ns: 1_700_000_000_000_000_000_i64,
        daemon_pid: 12345,
        last_shot_unix: 1_700_000_000,
    }
}

fn warm_facts() -> WarmFacts {
    WarmFacts {
        cache: Some(recorded()),
        lockfile_signature: Some("abc123".to_string()),
        pom_mtime_ns: Some(1_700_000_000_000_000_000_i64),
        socket_live: true,
        pid: Some(12345),
    }
}

#[test]
fn is_warm_path_returns_false_when_cache_missing() {
    // No `barista.lock`, no `last-shot.toml`, no socket.
    let warm = is_warm_path(&WarmFacts {
        cache: None,
        lockfile_signature: None,
        pom_mtime_ns: None,
        socket_live: false,
        pid: None,
    });
    assert!(!warm, "warm path must miss when cache is absent");
}

#[test]
fn every_difference_makes_a_run_cold() {
    assert!(is_warm_path(&warm_facts()));
    assert!(!is_warm_path(&WarmFacts { cache: None, ..warm_facts() }));
    let old = LastShotCache { version: CACHE_SCHEMA_VERSION + 1, ..recorded() };
    assert!(!is_warm_path(&WarmFacts { cache: Some(old), ..warm_facts() }));
    assert!(!is_warm_path(&WarmFacts { lockfile_signature: Some("x".into()), ..warm_facts() }));
    assert!(!is_warm_path(&WarmFacts { lockfile_signature: None, ..warm_facts() }));
    assert!(!is_warm_path(&WarmFacts { pom_mtime_ns: Some(1), ..warm_facts() }));
    assert!(!is_warm_path(&WarmFacts { pom_mtime_ns: None, ..warm_facts() }));
    assert!(!is_warm_path(&WarmFacts { socket_live: false, ..warm_facts() }));
    assert!(!is_warm_path(&WarmFacts { pid: Some(1), ..warm_facts() }));
    assert!(!is_warm_path(&WarmFacts { pid: None, ..warm_facts() }));
}

#[test]
fn a_record_makes_the_next_run_warm() {
    let c = update_last_shot_cache(Some("s".into()), Some(-5), Some(7), Some(99)).unwrap();
    assert_eq!(c.last_shot_unix, 99);
    assert!(is_warm_path(&WarmFacts {
        cache: Some(c),
        lockfile_signature: Some("s".into()),
        pom_mtime_ns: Some(-5),
        socket_live: true,
        pid: Some(7),
    }));
}

#[test]
fn a_record_needs_lockfile_pom_and_daemon() {
    assert!(matches!(
        update_last_shot_cache(None, None, None, None),
        Err(CacheWriteError::MissingLockfile)
    ));
    assert!(matches!(
        update_last_shot_cache(Some("s".into()), None, None, None),
        Err(CacheWriteError::MissingPom)
    ));
    let e = update_last_shot_cache(Some("s".into()), Some(1), None, None).unwrap_err();
    assert_eq!(
        cache_warning("/c/last-shot.toml", &e),
        "barista: warning: could not update warm-path cache at /c/last-shot.toml: daemon pid file missing or unreadable",
    );
    assert_eq!(CacheWriteError::Io("full".into()).to_message(), "io: full");
    assert_eq!(CacheWriteError::Serialize("no".into()).to_message(), "serialize: no");
}

#[test]
fn shot_error_exit_codes_match_verify_convention() {
    let e = ShotError::Pour { detail: "x".into() };
    assert_eq!(e.exit_code(), 2);
    let e = ShotError::Workers { detail: "x".into() };
    assert_eq!(e.exit_code(), 2);
    let e = ShotError::Ipc { phase: "compile".into(), detail: "x".into() };
    assert_eq!(e.exit_code(), 1);
    let e = ShotError::PersistentCrash { phase: "compile".into() };
    assert_eq!(e.exit_code(), 1);
}

#[test]
fn messages_name_the_phase() {
    let e = ShotError::PrematureClose { phase: "test".into() };
    assert_eq!(e.to_message(), "phase test: daemon disconnected before action terminated");
    let e = ShotError::DaemonConnect {
        phase: "test".into(),
        socket: "/run/barback.sock".into(),
        detail: "refused".into(),
    };
    assert_eq!(
        e.to_message(),
        "phase test: connect to daemon at \"/run/barback.sock\": refused",
    );
    let e = ShotError::PersistentCrash { phase: "test".into() };
    assert!(e.to_message().ends_with("`BARISTA_BARBACK_VERBOSE=1 barista shot test`."));
}

#[test]
fn modification_times_saturate_on_both_sides() {
    assert_eq!(pom_mtime_ns(false, 1, 5), 1_000_000_005);
    assert_eq!(pom_mtime_ns(true, 1, 5), -1_000_000_005);
    assert_eq!(pom_mtime_ns(false, u64::MAX, 0), i64::MAX);
    assert_eq!(pom_mtime_ns(true, u64::MAX, 0), -i64::MAX);
}

#[test]
fn pid_files_are_trimmed() {
    assert_eq!(read_pid(Some(" 4711\n")), Some(4711));
    assert_eq!(read_pid(Some("x")), None);
    assert_eq!(read_pid(Some("4294967296")), None);
    assert_eq!(read_pid(None), None);
}

#[test]
fn records_lie_below_the_home_directory() {
    assert_eq!(cache_root(Some("/home/me"), "/tmp"), "/home/me/.barista/cache");
    assert_eq!(cache_root(None, "/tmp"), "/tmp/barista-cache");
    assert_eq!(
        last_shot_cache_path("abc", Some("/home/me"), "/tmp"),
        "/home/me/.barista/cache/ba7816bf8f01cfea414140de5dae2223b00361a396177a9cb410ff61f20015ad/last-shot.toml",
    );
}

#[test]
fn routes_follow_the_arguments() {
    match run(&vec![], false) {
        ShotRoute::Refuse(m) => assert!(m.starts_with("barista: shot requires a phase expression")),
        other => panic!("{other:?}"),
    }
    match run(&vec!["brew".to_string()], true) {
        ShotRoute::Refuse(m) => assert!(m.ends_with("got `brew`.")),
        other => panic!("{other:?}"),
    }
    match run(&vec!["test".to_string(), "-q".to_string()], true) {
        ShotRoute::Fork(p, fwd) => {
            assert_eq!(p.as_str(), "test");
            assert_eq!(fwd, vec!["-q".to_string()]);
        }
        other => panic!("{other:?}"),
    }
    match run(&vec!["brew".to_string()], false) {
        ShotRoute::Daemon { expr, forwarded } => {
            assert_eq!(expr, "brew");
            assert!(forwarded.is_empty());
        }
        other => panic!("{other:?}"),
    }
}

fn config() -> LifecycleConfig {
    LifecycleConfig {
        socket_dir: "~/.barista/run".to_string(),
        idle_shutdown_secs: 1800,
        servers: vec![],
    }
}

fn env() -> LifecycleEnv {
    LifecycleEnv {
        workers_expr: None,
        cores: 4,
        home: Some("/home/me".to_string()),
        vars: vec![],
        git_head: None,
    }
}

fn at_probe(expr: &str) -> Stage {
    let root = ProjectRoot {
        root: "/p".to_string(),
        pom: "/p/pom.xml".to_string(),
        source: RootSource::WalkUp,
    };
    let (stage, action) = run_inner(expr, &vec![], false, &None, Stage::Root, Event::Root(Ok(root)));
    assert!(matches!(action, Action::LoadConfig(p) if p == "/p/barista.toml"));
    let (stage, action) = run_inner(expr, &vec![], false, &None, stage, Event::Config(Ok(config()), env()));
    assert!(matches!(action, Action::Probe));
    stage
}

#[test]
fn a_warm_project_is_not_poured() {
    let (_, action) = run_inner("test", &vec![], false, &None, at_probe("test"), Event::Probe(warm_facts()));
    assert!(matches!(action, Action::Launch));
    let cold = WarmFacts { socket_live: false, ..warm_facts() };
    let (stage, action) = run_inner("test", &vec![], false, &None, at_probe("test"), Event::Probe(cold));
    assert!(matches!(action, Action::Pour(p) if p.target.is_none() && !p.dry_run));
    let (_, action) = run_inner("test", &vec![], false, &None, stage, Event::Pour(Err("no lock".to_string())));
    match action {
        Action::Finish { outcome: Err(e), update_cache } => {
            assert!(!update_cache);
            assert_eq!(e.exit_code(), 2);
            assert!(e.to_message().contains("no lock"));
        }
        other => panic!("{other:?}"),
    }
}

#[test]
fn only_a_clean_run_leaves_a_record() {
    for failed in [0usize, 1] {
        let (stage, _) = run_inner("test", &vec![], false, &None, at_probe("test"), Event::Probe(warm_facts()));
        let (stage, action) = run_inner("test", &vec![], false, &None, stage, Event::Launch(Ok(())));
        assert!(matches!(action, Action::Dispatch));
        let o = ModuleOutcome { invocations: vec![], executed: 3, failed_actions: failed, respawns: 0 };
        let (_, action) = run_inner("test", &vec![], false, &None, stage, Event::Dispatch(Ok(o), 17));
        match action {
            Action::Finish { outcome, update_cache } => {
                assert_eq!(update_cache, failed == 0);
                let (printed, code) = outcome_shown(&outcome, false, true);
                assert_eq!(printed, Printed::Report);
                assert_eq!(code, failed as i32);
                let report = outcome.unwrap();
                assert_eq!(report.phase, "shot:test");
                assert_eq!(report.executed_actions, 3);
                assert_eq!(report.duration_ms, 17);
            }
            other => panic!("{other:?}"),
        }
    }
}

#[test]
fn an_unknown_phase_ends_a_shot_early() {
    let root = ProjectRoot {
        root: "/p".to_string(),
        pom: "/p/pom.xml".to_string(),
        source: RootSource::WalkUp,
    };
    let (stage, _) = run_inner("brew", &vec![], false, &None, Stage::Root, Event::Root(Ok(root)));
    let (_, action) = run_inner("brew", &vec![], false, &None, stage, Event::Config(Ok(config()), env()));
    match action {
        Action::Finish { outcome: Err(e), .. } => {
            assert_eq!(e.to_message(), "invalid phase expression: unknown lifecycle phase `brew`");
        }
        other => panic!("{other:?}"),
    }
}

#[test]
fn a_shot_carries_its_arguments_and_its_seed() {
    let args = vec!["-DskipTests".to_string()];
    for ci in [false, true] {
        let root = ProjectRoot {
            root: "/p".to_string(),
            pom: "/p/pom.xml".to_string(),
            source: RootSource::WalkUp,
        };
        let (stage, _) = run_inner("test", &args, ci, &None, Stage::Root, Event::Root(Ok(root)));
        let (stage, _) = run_inner("test", &args, ci, &None, stage, Event::Config(Ok(config()), env()));
        match stage {
            Stage::Probe { prepared, .. } => {
                assert_eq!(prepared.arguments, args);
                assert_eq!(prepared.seed.is_some(), ci);
            }
            other => panic!("{other:?}"),
        }
    }
}

#[test]
fn a_shot_leaves_the_variables_of_the_user_alone() {
    let mut set = env();
    set.vars = vec![Binding { key: "LC_ALL".to_string(), value: "de_DE".to_string() }];
    let p = prepare("/p", "test", &vec![], true, &config(), &set).unwrap();
    let keys: Vec<String> = p.seed.unwrap().env.into_iter().map(|b| b.key).collect();
    assert_eq!(keys, vec!["SOURCE_DATE_EPOCH".to_string(), "TZ".to_string()]);
}
