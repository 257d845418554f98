//! Pours, lockfiles and trees.

use barista_cli::cli::{DiffArgs, GrindCommand, OutputFormat, ScopeArg, TreeArgs, TreeFormat};
use barista_cli::cmd::grind::tree::{render_text, run as run_tree, run_inner as tree_step, TreeStep};
use barista_cli::cmd::grind::{run as run_grind, GrindRoute, TreeError};
use barista_cli::cmd::pour::{
    run, run_inner, scope_matches, setup, LinkError, PourAnswers, PourAsk, PourDirs, PourError,
    PourInputs, PourSetup, PourStep,
};
use barista_cli::lockfile::{
    format_coord, lockfiles_equal_ignoring_timestamp, LockedModule, Lockfile, LockfileEntry,
    LockfileMeta,
};
use barista_cli::project::{ProjectRoot, ResolveError, RootSource};

fn s(x: &str) -> String {
    x.to_string()
}

fn entry(artifact: &str, scope: &str, from: &[&str]) -> LockfileEntry {
    LockfileEntry {
        coords: format!("g:{artifact}"),
        version: s("1.0"),
        scope: s(scope),
        optional: false,
        sha256: s("00"),
        sha1: None,
        size_bytes: 1,
        source_url: s("u"),
        etag: None,
        last_modified: None,
        classifier: None,
        type_: s("jar"),
        from_path: from.iter().map(|x| s(x)).collect(),
        depth: from.len() as u32 + 1,
        snapshot_resolution: None,
        exclusions: vec![],
    }
}

fn lockfile() -> Lockfile {
    Lockfile {
        meta: LockfileMeta {
            schema_version: 1,
            project_signature: s("sig"),
            settings_fingerprint: s("fp"),
            generated_at: s("t0"),
        },
        reactor: vec![LockedModule { coords: s("g:app"), version: s("1.0"), relative_path: s(".") }],
        entries: vec![
            entry("a", "compile", &[]),
            entry("t", "test", &[]),
            entry("b", "COMPILE", &["g:a"]),
        ],
        settings_snapshot: None,
    }
}

fn inputs(dry_run: bool) -> PourInputs {
    PourInputs {
        project_root: s("/p"),
        target: None,
        m2_repository: s("/m2"),
        cache_dir: s("/cache"),
        scope: ScopeArg::Compile,
        dry_run,
    }
}

fn answers() -> PourAnswers {
    PourAnswers {
        on_disk: Some(Ok(Some(lockfile()))),
        planned: vec![],
        opened: None,
        present: vec![],
        linked: vec![],
    }
}

fn failure(step: PourStep) -> PourError {
    match step {
        PourStep::Done(Err(e)) => e,
        other => panic!("{other:?}"),
    }
}

#[test]
fn a_missing_lockfile_is_the_users_to_mend() {
    let a = PourAnswers { on_disk: None, ..answers() };
    assert!(matches!(
        run_inner(&inputs(false), &a),
        PourStep::Need(PourAsk::ReadLockfile(p)) if p == "/p/barista.lock"
    ));
    let a = PourAnswers { on_disk: Some(Ok(None)), ..answers() };
    let e = failure(run_inner(&inputs(false), &a));
    assert_eq!(
        e.to_message(),
        "no barista.lock at \"/p/barista.lock\"\n  hint: run `barista pull` first to resolve dependencies and create barista.lock",
    );
    assert_eq!(run(&Err(e), true).1, 2);
    let a = PourAnswers { on_disk: Some(Err(s("torn"))), ..answers() };
    let (line, code) = run(&Err(failure(run_inner(&inputs(false), &a))), false);
    assert_eq!((line.unwrap().as_str(), code), ("error: barista pour failed: lockfile: torn", 1));
}

#[test]
fn a_dry_run_plans_the_scope() {
    let i = inputs(true);
    let mut a = answers();
    match run_inner(&i, &a) {
        PourStep::Need(PourAsk::Plan { entry, target }) => assert_eq!((entry, target.as_str()), (0, "/m2")),
        other => panic!("{other:?}"),
    }
    a.planned.push(Ok(s("/m2/g/a")));
    assert!(matches!(run_inner(&i, &a), PourStep::Need(PourAsk::Plan { entry: 2, .. })));
    a.planned.push(Ok(s("/m2/g/b")));
    let report = match run_inner(&i, &a) {
        PourStep::Done(Ok(r)) => r,
        other => panic!("{other:?}"),
    };
    assert_eq!((report.considered, report.planned, report.materialized), (3, 2, 0));
    assert_eq!(report.planned_paths, vec![s("/m2/g/a"), s("/m2/g/b")]);
    assert_eq!(
        run(&Ok(report), false),
        (Some(s("pour: dry-run: 2 of 3 entries (scope=compile) → /m2")), 0),
    );
}

#[test]
fn nothing_is_linked_while_an_artifact_is_missing() {
    let i = inputs(false);
    let mut a = answers();
    assert!(matches!(run_inner(&i, &a), PourStep::Need(PourAsk::OpenCas(p)) if p == "/cache"));
    a.opened = Some(Ok(()));
    assert!(matches!(run_inner(&i, &a), PourStep::Need(PourAsk::Contains { entry: 0 })));
    a.present.push(Ok(false));
    assert!(matches!(run_inner(&i, &a), PourStep::Need(PourAsk::Contains { entry: 2 })));
    a.present.push(Ok(false));
    let e = failure(run_inner(&i, &a));
    assert_eq!(
        e.to_message(),
        "2 artifact(s) missing from the local cache; run `barista pull` to fetch them:\n  - g:a:1.0\n  - g:b:1.0",
    );
    assert!(e.is_precondition());
}

#[test]
fn artifacts_are_linked_one_by_one() {
    let i = PourInputs { target: Some(s("/out")), ..inputs(false) };
    let mut a = PourAnswers {
        opened: Some(Ok(())),
        present: vec![Ok(true), Ok(true)],
        linked: vec![Ok(s("/out/a"))],
        ..answers()
    };
    assert!(matches!(
        run_inner(&i, &a),
        PourStep::Need(PourAsk::Link { entry: 2, target }) if target == "/out"
    ));
    a.linked.push(Ok(s("/out/b")));
    match run_inner(&i, &a) {
        PourStep::Done(Ok(r)) => {
            assert_eq!((r.planned, r.materialized, r.dry_run), (2, 2, false));
            assert_eq!(r.summary(), "2 of 3 entries (scope=compile) → /out");
        }
        other => panic!("{other:?}"),
    }
}

#[test]
fn every_pour_error_has_its_text() {
    let i = inputs(false);
    let a = PourAnswers { opened: Some(Err(s("x"))), ..answers() };
    assert_eq!(failure(run_inner(&i, &a)).to_message(), "opening cache at \"/cache\": x");
    let a = PourAnswers { opened: Some(Ok(())), present: vec![Err(s("x"))], ..answers() };
    assert_eq!(failure(run_inner(&i, &a)).to_message(), "bad sha256 on entry g:a:1.0: x");
    let held = || PourAnswers {
        opened: Some(Ok(())),
        present: vec![Ok(true), Ok(true)],
        ..answers()
    };
    let a = PourAnswers { linked: vec![Err(LinkError::Coords(s("x")))], ..held() };
    assert_eq!(failure(run_inner(&i, &a)).to_message(), "invalid coords \"g:a\": x");
    let a = PourAnswers { linked: vec![Err(LinkError::Mirror(s("x")))], ..held() };
    let e = failure(run_inner(&i, &a));
    assert_eq!(e.to_message(), "materializing g:a:1.0: x");
    assert!(!e.is_precondition());
    let e = PourError::NotYetImplemented { detail: s("x") };
    assert_eq!(e.to_message(), "not yet implemented: x");
    assert!(e.is_precondition());
}

#[test]
fn scopes_match_whatever_their_case() {
    assert!(scope_matches("compile", "Compile"));
    assert!(!scope_matches("compile", "runtime"));
}

#[test]
fn setting_up_a_pour() {
    let root = || ProjectRoot { root: s("/p"), pom: s("/p/pom.xml"), source: RootSource::WalkUp };
    assert!(matches!(setup(&None, None, None), PourSetup::ResolveRoot));
    assert!(matches!(
        setup(&None, Some(Ok(root())), None),
        PourSetup::LoadConfig(p) if p == "/p/barista.toml"
    ));
    match setup(&None, Some(Err(ResolveError::NoHome)), None) {
        PourSetup::Failed(e) => assert!(e.to_message().starts_with("project setup: ")),
        other => panic!("{other:?}"),
    }
    match setup(&None, Some(Ok(root())), Some(Err(s("x")))) {
        PourSetup::Failed(e) => assert_eq!(e.to_message(), "config load: x"),
        other => panic!("{other:?}"),
    }
    let dirs = PourDirs { m2_repository: s("/m2"), cache_dir: s("/c") };
    assert!(matches!(setup(&None, Some(Ok(root())), Some(Ok(dirs))), PourSetup::Ready(_, _)));
}

#[test]
fn the_time_of_writing_does_not_count() {
    let a = lockfile();
    let mut b = lockfile();
    b.meta.generated_at = s("t1");
    assert!(lockfiles_equal_ignoring_timestamp(&a, &b));
    b.entries[2].from_path.push(s("g:x"));
    assert!(!lockfiles_equal_ignoring_timestamp(&a, &b));
    let mut c = lockfile();
    c.reactor.clear();
    assert!(!lockfiles_equal_ignoring_timestamp(&a, &c));
}

#[test]
fn classifiers_are_shown() {
    let mut e = entry("a", "compile", &[]);
    assert_eq!(format_coord(&e), "g:a:1.0");
    e.classifier = Some(s("sources"));
    assert_eq!(format_coord(&e), "g:a:1.0:sources:jar");
}

#[test]
fn the_tree_shows_every_entry() {
    assert_eq!(
        render_text(&lockfile()),
        "g:app:1.0\n├── g:a:1.0  [compile]\n│   └── g:b:1.0  [COMPILE]\n└── g:t:1.0  [test]\n",
    );
}

#[test]
fn the_tree_command_goes_step_by_step() {
    let root = || Some(Ok(ProjectRoot { root: s("/p"), pom: s("/p/pom.xml"), source: RootSource::WalkUp }));
    assert!(matches!(
        tree_step(None, None, OutputFormat::Human, TreeFormat::Text),
        TreeStep::ResolveRoot
    ));
    assert!(matches!(
        tree_step(root(), None, OutputFormat::Human, TreeFormat::Text),
        TreeStep::ReadLockfile(p) if p == "/p/barista.lock"
    ));
    match tree_step(root(), Some(Ok(None)), OutputFormat::Human, TreeFormat::Text) {
        TreeStep::Failed(e) => {
            assert!(e.to_message().starts_with("no barista.lock at \"/p/barista.lock\"\n  hint: run"));
            let (line, code) = run_tree(&Err(e), OutputFormat::Human);
            assert!(line.unwrap().starts_with("error: barista grind tree failed: no barista.lock"));
            assert_eq!(code, 1);
        }
        other => panic!("{other:?}"),
    }
    match tree_step(root(), Some(Ok(Some(lockfile()))), OutputFormat::Human, TreeFormat::Json) {
        TreeStep::Show { report, indented_json } => {
            assert!(indented_json);
            assert_eq!(report.nodes.len(), 3);
            assert_eq!(report.nodes[2].from_path, vec![s("g:a")]);
        }
        other => panic!("{other:?}"),
    }
    assert!(matches!(
        tree_step(root(), Some(Ok(Some(lockfile()))), OutputFormat::Json, TreeFormat::Json),
        TreeStep::Show { indented_json: false, .. }
    ));
    assert_eq!(run_tree(&Ok(()), OutputFormat::Json), (None, 0));
    assert_eq!(TreeError::Serialize(s("x")).to_message(), "serialization: x");
}

#[test]
fn missing_views_are_told() {
    assert!(matches!(
        run_grind(&GrindCommand::Tree(TreeArgs { format: TreeFormat::Json })),
        GrindRoute::Tree(TreeFormat::Json)
    ));
    match run_grind(&GrindCommand::Diff(DiffArgs { base_ref: s("main") })) {
        GrindRoute::Stub(m, code) => {
            assert_eq!(code, 2);
            assert!(m.starts_with("barista: `grind diff` not yet implemented in this build."));
        }
        other => panic!("{other:?}"),
    }
}
