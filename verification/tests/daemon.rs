//! Launching and supervising the daemon.

use barista_cli::daemon::launcher::{
    daemon_args, discover_jvm_entry, duration_string, locate_java, probe_step, ready_step,
    stale_daemon, ConnectOutcome, EntryLookup, EntrySources, JvmEntry, LaunchPlan, LauncherError,
    ProbeStep,
};
use barista_cli::daemon::respawn::{
    attempt_step, submit_with_respawn, ActionResult, AttemptError, AttemptEvent, AttemptOutcome,
    AttemptStep, RespawnError, RespawnStep,
};
use barista_cli::facts::{Facts, Lookup, PathKind};

fn plan() -> LaunchPlan {
    LaunchPlan::new("/tmp/baristarun".to_string(), 4, 1800)
}

#[test]
fn launch_plan_constructor_defaults_socket_path() {
    let plan = plan();
    assert_eq!(plan.socket_path, "/tmp/baristarun/barback.sock");
    assert_eq!(plan.workers, 4);
    assert_eq!(plan.idle_shutdown_secs, 1800);
    assert!(plan.crash_after.is_none());
}

fn sources() -> EntrySources {
    EntrySources { jar: None, classpath: None, home: None, mvn_classpath: None, mvn_compile: None }
}

#[test]
fn discover_jvm_entry_prefers_explicit_classpath_env() {
    let s = EntrySources { classpath: Some("/x:/y".to_string()), ..sources() };
    let entry = match discover_jvm_entry("/", &s, &Facts::new()) {
        EntryLookup::Known(Ok(e)) => e,
        other => panic!("explicit CP wins, got {other:?}"),
    };
    match entry {
        JvmEntry::Classpath { classpath, main_class } => {
            assert_eq!(classpath, "/x:/y");
            assert_eq!(main_class, "com.bluminal.barista.barback.Server");
        }
        JvmEntry::Jar(_) => panic!("expected Classpath, got Jar"),
    }
}

#[test]
fn an_explicit_jar_comes_first() {
    let s = EntrySources {
        jar: Some("/j.jar".to_string()),
        classpath: Some("/x".to_string()),
        ..sources()
    };
    let mut facts = Facts::new();
    facts.record_kind("/j.jar".to_string(), PathKind::File);
    match discover_jvm_entry("/", &s, &facts) {
        EntryLookup::Known(Ok(JvmEntry::Jar(p))) => assert_eq!(p, "/j.jar"),
        other => panic!("{other:?}"),
    }
}

#[test]
fn only_a_refusal_in_time_is_tried_again() {
    assert_eq!(probe_step(ConnectOutcome::Accepted, true), ProbeStep::Live);
    assert_eq!(probe_step(ConnectOutcome::Refused, false), ProbeStep::Again);
    assert_eq!(probe_step(ConnectOutcome::Refused, true), ProbeStep::Dead);
    assert_eq!(probe_step(ConnectOutcome::Failed, false), ProbeStep::Dead);
}

#[test]
fn waiting_for_a_daemon_ends_at_the_deadline() {
    assert!(ready_step(&plan(), false, false).is_none());
    assert!(matches!(ready_step(&plan(), true, true), Some(Ok(()))));
    match ready_step(&plan(), false, true) {
        Some(Err(e @ LauncherError::SpawnTimeout { .. })) => {
            assert!(e.to_message().contains("/tmp/baristarun/barback.sock"));
        }
        other => panic!("{other:?}"),
    }
}

#[test]
fn java_is_found_below_its_home_first() {
    let mut facts = Facts::new();
    facts.record_kind("/jdk/bin/java".to_string(), PathKind::File);
    match locate_java(Some("/jdk"), Some("/usr/bin/java".to_string()), &facts) {
        Lookup::Known(Ok(p)) => assert_eq!(p, "/jdk/bin/java"),
        other => panic!("{other:?}"),
    }
    assert!(matches!(
        locate_java(None, None, &facts),
        Lookup::Known(Err(LauncherError::JavaNotFound))
    ));
}

#[test]
fn a_pid_file_names_the_stale_daemon() {
    assert_eq!(stale_daemon(" 4711\n"), Some(4711));
    assert_eq!(stale_daemon("none"), None);
}

#[test]
fn the_daemon_is_told_where_to_listen() {
    let args = daemon_args(&plan(), &JvmEntry::Jar("/b.jar".to_string()));
    assert!(args.iter().any(|a| a == "/tmp/baristarun/barback.sock"), "{args:?}");
    assert!(args.windows(2).any(|w| w[0] == "-jar" && w[1] == "/b.jar"), "{args:?}");
}

#[test]
fn durations_have_units() {
    assert_eq!(duration_string(1500), "1.5s");
    assert_eq!(duration_string(30_000), "30s");
    assert_eq!(duration_string(250), "250ms");
}

fn result(exit_code: i32) -> ActionResult {
    ActionResult {
        action_id: "id".to_string(),
        exit_code,
        status: 1,
        failure_message: String::new(),
        error_code: None,
    }
}

#[test]
fn an_attempt_collects_progress() {
    let next = match attempt_step(vec!["a".to_string()], AttemptEvent::Progress("b".to_string())) {
        AttemptStep::Continue(p) => p,
        other => panic!("{other:?}"),
    };
    assert_eq!(next, vec!["a".to_string(), "b".to_string()]);
    match attempt_step(next, AttemptEvent::Ended(result(0))) {
        AttemptStep::End(Ok(o)) => assert_eq!(o.progress.len(), 2),
        other => panic!("{other:?}"),
    }
}

#[test]
fn a_crash_is_retried_once() {
    assert!(matches!(
        submit_with_respawn(0, true, "/s", Err(AttemptError::Crashed { message: "gone".to_string() })),
        RespawnStep::Respawn
    ));
    assert!(matches!(
        submit_with_respawn(1, true, "/s", Err(AttemptError::Crashed { message: "gone".to_string() })),
        RespawnStep::Finish(Err(RespawnError::PersistentCrash))
    ));
    assert!(matches!(
        submit_with_respawn(0, false, "/s", Err(AttemptError::Crashed { message: "gone".to_string() })),
        RespawnStep::Finish(Err(RespawnError::DaemonProtocolError { code, message }))
            if code == "BAR-DAEMON-CRASHED" && message == "gone"
    ));
    match submit_with_respawn(1, true, "/s", Ok(AttemptOutcome { result: result(0), progress: vec![] })) {
        RespawnStep::Finish(Ok(o)) => assert_eq!(o.respawns, 1),
        other => panic!("{other:?}"),
    }
}

#[test]
fn other_failures_are_not_retried() {
    match submit_with_respawn(0, true, "/s", Err(AttemptError::Connect { source: "x".to_string() })) {
        RespawnStep::Finish(Err(e)) => assert!(e.to_message().contains("\"/s\""), "{}", e.to_message()),
        other => panic!("{other:?}"),
    }
    assert!(matches!(
        submit_with_respawn(0, true, "/s", Err(AttemptError::PrematureClose)),
        RespawnStep::Finish(Err(RespawnError::PrematureClose))
    ));
}
