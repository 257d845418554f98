//! Upstream Maven.

use barista_cli::cli::{GlobalFlags, MavenVocabArgs, OutputFormat};
use barista_cli::cmd::maven_vocab::MavenPhase;
use barista_cli::cmd::no_daemon::{
    build_mvn_argv, dispatch, forwarded_exit_code, mvn_bin_name, resolve_mvn, spawn_failure,
    Dispatch, ForkSetup, MvnLookup, ResolveMvnError, SpawnOutcome, ERR_CODE_MVN_NOT_FOUND, EXIT_MVN_NOT_FOUND,
};
use barista_cli::facts::{Binding, Facts, PathKind};

fn globals() -> GlobalFlags {
    GlobalFlags {
        output: OutputFormat::Human,
        ci: false,
        quiet: false,
        verbose: 0,
        root: None,
        file: None,
        strict: false,
        frozen: false,
        no_daemon: true,
        maven_compat: None,
        config: None,
        no_color: false,
    }
}

fn args(a: &[&str]) -> MavenVocabArgs {
    MavenVocabArgs { args: a.iter().map(|s| s.to_string()).collect() }
}

#[test]
fn build_argv_minimal_compile() {
    let argv = build_mvn_argv(&globals(), MavenPhase::Compile, &args(&[]));
    assert_eq!(argv, vec!["compile"]);
}

#[test]
fn build_argv_passes_through_user_args() {
    let argv =
        build_mvn_argv(&globals(), MavenPhase::Test, &args(&["-DskipTests=false", "-Dprop=value"]));
    assert_eq!(argv, vec!["test", "-DskipTests=false", "-Dprop=value"]);
}

#[test]
fn build_argv_quiet_emits_minus_q() {
    let g = GlobalFlags { quiet: true, ..globals() };
    assert_eq!(build_mvn_argv(&g, MavenPhase::Compile, &args(&[])), vec!["-q", "compile"]);
}

#[test]
fn build_argv_double_verbose_emits_minus_x() {
    let g = GlobalFlags { verbose: 2, ..globals() };
    assert_eq!(build_mvn_argv(&g, MavenPhase::Compile, &args(&[])), vec!["-X", "compile"]);
}

#[test]
fn build_argv_no_color_emits_minus_b() {
    let g = GlobalFlags { no_color: true, ..globals() };
    assert_eq!(build_mvn_argv(&g, MavenPhase::Compile, &args(&[])), vec!["-B", "compile"]);
}

#[test]
fn resolve_mvn_prefers_maven_home_when_valid() {
    let mut facts = Facts::new();
    facts.record_kind("/nonexistent/maven/bin/mvn".to_string(), PathKind::Missing);
    match resolve_mvn(&Some("/nonexistent/maven".to_string()), "mvn", &facts, &Some(None)) {
        MvnLookup::Known(Err(ResolveMvnError::NotFound { tried_maven_home })) => {
            assert_eq!(tried_maven_home, Some("/nonexistent/maven".to_string()));
        }
        other => panic!("{other:?}"),
    }
    let mut facts = Facts::new();
    facts.record_kind("/opt/maven/bin/mvn".to_string(), PathKind::File);
    match resolve_mvn(&Some("/opt/maven".to_string()), "mvn", &facts, &Some(Some("/usr/bin/mvn".to_string()))) {
        MvnLookup::Known(Ok(p)) => assert_eq!(p, "/opt/maven/bin/mvn"),
        other => panic!("{other:?}"),
    }
}

#[test]
fn resolve_mvn_not_found_error_renders_code() {
    let err = ResolveMvnError::NotFound { tried_maven_home: None };
    let rendered = err.render();
    assert!(rendered.contains(ERR_CODE_MVN_NOT_FOUND));
    assert!(rendered.contains("MAVEN_HOME is unset"));
}

#[test]
fn resolve_mvn_not_found_with_maven_home_mentions_it() {
    let err = ResolveMvnError::NotFound { tried_maven_home: Some("/opt/maven".to_string()) };
    let rendered = err.render();
    assert!(rendered.contains("/opt/maven"));
    assert!(rendered.contains(ERR_CODE_MVN_NOT_FOUND));
}

fn setup(maven_home: Option<&str>) -> ForkSetup {
    ForkSetup {
        bin_name: mvn_bin_name(false).to_string(),
        maven_home: maven_home.map(String::from),
        settings: None,
        home: Some("/home/me".to_string()),
        vars: vec![],
        git_head: Some(1_700_000_000),
        cwd: "/cwd".to_string(),
    }
}

fn home_with_mvn() -> Facts {
    let mut facts = Facts::new();
    facts.record_kind("/td/bin/mvn".to_string(), PathKind::File);
    facts
}

#[test]
fn dispatch_with_records_argv_and_forwards_exit_code() {
    let g = GlobalFlags { root: Some("/td".to_string()), ..globals() };
    match dispatch(&g, MavenPhase::Compile, &args(&["-DskipTests"]), &setup(Some("/td")), &home_with_mvn(), &None) {
        Dispatch::Fork { mvn, argv, env, dir, trace } => {
            assert_eq!(mvn, "/td/bin/mvn");
            assert_eq!(argv, vec!["compile", "-DskipTests"]);
            assert!(env.is_empty());
            assert_eq!(dir, "/td");
            assert_eq!(trace, None);
        }
        other => panic!("{other:?}"),
    }
    assert_eq!(forwarded_exit_code(SpawnOutcome::Exited(0)), 0);
}

#[test]
fn dispatch_with_bubbles_nonzero_exit_code() {
    let g = GlobalFlags { root: Some("/td".to_string()), ..globals() };
    let exit = match dispatch(&g, MavenPhase::Verify, &args(&[]), &setup(Some("/td")), &home_with_mvn(), &None) {
        Dispatch::Fork { mvn, argv, dir, .. } => {
            assert_eq!((mvn.as_str(), dir.as_str()), ("/td/bin/mvn", "/td"));
            assert_eq!(argv, vec!["verify"]);
            forwarded_exit_code(SpawnOutcome::Exited(42))
        }
        other => panic!("{other:?}"),
    };
    assert_eq!(exit, 42);
}

#[test]
fn a_signal_counts_as_one() {
    assert_eq!(forwarded_exit_code(SpawnOutcome::Signal), 1);
}

fn get<'a>(bs: &'a [Binding], key: &str) -> Option<&'a str> {
    bs.iter().find(|b| b.key == key).map(|b| b.value.as_str())
}

fn forked(g: &GlobalFlags, a: &[&str], s: &ForkSetup) -> (Vec<String>, Vec<Binding>) {
    match dispatch(g, MavenPhase::Verify, &args(a), s, &home_with_mvn(), &None) {
        Dispatch::Fork { argv, env, .. } => (argv, env),
        other => panic!("{other:?}"),
    }
}

#[test]
fn a_reproducible_run_seeds_upstream_maven() {
    let g = GlobalFlags { ci: true, ..globals() };
    let mut s = setup(Some("/td"));
    s.vars.push(Binding { key: "TZ".to_string(), value: "Europe/Berlin".to_string() });
    let (argv, env) = forked(&g, &["-Dx=1"], &s);
    assert_eq!(argv[..2], ["verify", "-Dx=1"]);
    assert!(argv.contains(&"-Dproject.build.outputTimestamp=2023-11-14T22:13:20Z".to_string()));
    assert_eq!(get(&env, "SOURCE_DATE_EPOCH"), Some("1700000000"));
    assert_eq!(get(&env, "LC_ALL"), Some("C"));
    assert_eq!(get(&env, "TZ"), None, "a variable that is set stays");
}

#[test]
fn the_users_properties_win_over_the_seed() {
    let g = GlobalFlags { ci: true, ..globals() };
    let (argv, _) = forked(&g, &["-Dproject.build.outputTimestamp=7"], &setup(Some("/td")));
    assert_eq!(argv, vec!["verify", "-Dproject.build.outputTimestamp=7"]);
}

#[test]
fn only_another_settings_file_is_named() {
    let mut s = setup(Some("/td"));
    s.settings = Some("/home/me/.m2/settings.xml".to_string());
    assert_eq!(forked(&globals(), &[], &s).0, vec!["verify"]);
    s.settings = Some("/etc/maven.xml".to_string());
    assert_eq!(forked(&globals(), &[], &s).0, vec!["-s", "/etc/maven.xml", "verify"]);
}

#[test]
fn the_launcher_has_its_own_name_on_windows() {
    let mut s = setup(Some("/td"));
    s.bin_name = mvn_bin_name(true).to_string();
    match dispatch(&globals(), MavenPhase::Test, &args(&[]), &s, &home_with_mvn(), &None) {
        Dispatch::NeedKind(p) => assert_eq!(p, "/td/bin/mvn.cmd"),
        other => panic!("{other:?}"),
    }
}

#[test]
fn a_verbose_run_shows_what_is_sent() {
    let g = GlobalFlags { verbose: 1, ..globals() };
    match dispatch(&g, MavenPhase::Test, &args(&["-Dx=1"]), &setup(Some("/td")), &home_with_mvn(), &None) {
        Dispatch::Fork { dir, trace, .. } => {
            assert_eq!(dir, "/cwd");
            assert_eq!(trace.unwrap(), "barista: --no-daemon → /td/bin/mvn `test` `-Dx=1`");
        }
        other => panic!("{other:?}"),
    }
}

#[test]
fn the_pom_file_gives_the_directory() {
    let g = GlobalFlags { file: Some("/w/app/pom.xml".to_string()), ..globals() };
    let mut facts = home_with_mvn();
    match dispatch(&g, MavenPhase::Test, &args(&[]), &setup(Some("/td")), &facts, &None) {
        Dispatch::NeedKind(p) => assert_eq!(p, "/w/app/pom.xml"),
        other => panic!("{other:?}"),
    }
    facts.record_kind("/w/app/pom.xml".to_string(), PathKind::File);
    match dispatch(&g, MavenPhase::Test, &args(&[]), &setup(Some("/td")), &facts, &None) {
        Dispatch::Fork { dir, .. } => assert_eq!(dir, "/w/app"),
        other => panic!("{other:?}"),
    }
}

#[test]
fn nothing_found_is_refused() {
    assert!(matches!(
        dispatch(&globals(), MavenPhase::Test, &args(&[]), &setup(None), &Facts::new(), &None),
        Dispatch::NeedWhich
    ));
    match dispatch(&globals(), MavenPhase::Test, &args(&[]), &setup(None), &Facts::new(), &Some(None)) {
        Dispatch::Refuse { message, code } => {
            assert_eq!(code, EXIT_MVN_NOT_FOUND);
            assert!(message.contains("  code:  BAR-NODAEMON-MVN-NOT-FOUND\n"));
        }
        other => panic!("{other:?}"),
    }
    let (line, outcome) = spawn_failure("/td/bin/mvn", "denied");
    assert_eq!(line, "BAR-NODAEMON-MVN-NOT-FOUND: failed to spawn `mvn` at /td/bin/mvn: denied");
    assert_eq!(forwarded_exit_code(outcome), 2);
}
