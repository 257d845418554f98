//! Pulls.

use barista_cli::cli::{OutputFormat, ScopeArg};
use barista_cli::cmd::pull::{
    build_lockfile_entry, can_report, can_shorten, fetch_artifact_to_cache, fetch_settings, pom_coords_for_summary,
    progress_of, run, run_full_fetch, run_inner, run_no_fetch, settings_fingerprint, setup_events,
    short_sig, torn_journal_warning, ArtifactFetchError, Ask, Coordinate, Download, FetchAction, FetchEvent,
    FetchSource, FetchStage, FetchedArtifact, IndexEntry, Part, PomParent, PomSummary, PullAnswers,
    PullError, PullInputs, PullStep, ResolvedDep, SetupAnswers, SetupStep, Shown, Verification,
    WalkScope, MAVEN_CENTRAL,
};
use barista_cli::lockfile::{Lockfile, LockfileMeta};
use barista_cli::output::progress::ProgressEvent;
use barista_cli::output::report::{LockfileStatus, PullReport};
use barista_cli::project::{ProjectRoot, RootSource};

fn s(x: &str) -> String {
    x.to_string()
}

fn pom() -> PomSummary {
    PomSummary {
        group_id: None,
        artifact_id: s("app"),
        version: Some(s("1.0")),
        parent: Some(PomParent { group_id: s("com.example"), version: s("9") }),
    }
}

fn inputs(frozen: bool, update: bool) -> PullInputs {
    PullInputs {
        project_root: s("/p"),
        cache_root: s("/cache"),
        frozen,
        update,
        strict: true,
        scope: ScopeArg::Runtime,
        pom: pom(),
        schema_version: 1,
        generated_at: s("now"),
    }
}

fn dep(artifact: &str) -> ResolvedDep {
    ResolvedDep {
        coords: Coordinate { group: s("g"), artifact: s(artifact) },
        version: s("2.0"),
        scope: WalkScope::Runtime,
        optional: false,
        classifier: None,
        type_: s("jar"),
        winning_path: vec![Coordinate { group: s("g"), artifact: s("top") }],
        depth: 2,
    }
}

fn artifact(source: FetchSource) -> FetchedArtifact {
    FetchedArtifact {
        sha256: s("00ff"),
        sha1: None,
        size_bytes: 7,
        source_url: s("http://u"),
        etag: None,
        last_modified: None,
        source,
    }
}

const SIG: &str = "0123456789abcdef";

fn lockfile(sig: &str) -> Lockfile {
    Lockfile {
        meta: LockfileMeta {
            schema_version: 1,
            project_signature: s(sig),
            settings_fingerprint: settings_fingerprint(),
            generated_at: s("before"),
        },
        reactor: vec![],
        entries: vec![
            build_lockfile_entry(&dep("a"), &artifact(FetchSource::Cache)),
            build_lockfile_entry(&dep("b"), &artifact(FetchSource::Cache)),
        ],
        settings_snapshot: None,
    }
}

fn nothing() -> PullAnswers {
    PullAnswers {
        opened: vec![],
        resolved: None,
        signature: None,
        on_disk: None,
        walked: None,
        fetched: vec![],
        linked: vec![],
        written: None,
    }
}

fn signed(on_disk: Option<Lockfile>) -> PullAnswers {
    PullAnswers {
        opened: vec![Ok(()), Ok(()), Ok(()), Ok(()), Ok(())],
        resolved: Some(Ok(())),
        signature: Some(Ok(s(SIG))),
        on_disk: Some(Ok(on_disk)),
        ..nothing()
    }
}

#[test]
fn coordinates_fall_back_to_the_parent() {
    assert_eq!(pom_coords_for_summary(&pom()), "com.example:app:1.0");
    let bare = PomSummary { group_id: None, artifact_id: s("x"), version: None, parent: None };
    assert_eq!(pom_coords_for_summary(&bare), "<no-group>:x:<no-version>");
}

#[test]
fn long_signatures_are_cut() {
    assert_eq!(short_sig(SIG), "0123456789ab…");
    assert_eq!(short_sig("0123456789ab"), "0123456789ab");
    assert!(can_shorten("ééééééé"));
    assert_eq!(short_sig("ééééééé"), "éééééé…");
    assert!(!can_shorten("xééééééé"));
}

#[test]
fn the_fingerprint_is_the_digest_of_nothing() {
    assert_eq!(
        settings_fingerprint(),
        "e3b0c44298fc1c149afbf4c8996fb92427ae41e4649b934ca495991b7852b855",
    );
}

#[test]
fn parts_are_opened_in_order() {
    let mut a = nothing();
    let parts = [Part::CacheDir, Part::Cas, Part::Index, Part::Fetcher, Part::Runtime];
    for p in parts {
        match run_full_fetch(&inputs(false, false), &a) {
            PullStep::Need(Ask::Open(q)) => assert_eq!(p, q),
            other => panic!("{other:?}"),
        }
        a.opened.push(Ok(()));
    }
    assert!(matches!(
        run_full_fetch(&inputs(false, false), &a),
        PullStep::Need(Ask::ResolvePom)
    ));
}

#[test]
fn a_part_that_fails_names_itself() {
    let texts = [
        "I/O at \"/cache\": x",
        "opening cache CAS at \"/cache\": x",
        "opening cache index at \"/cache\": x",
        "building HTTP fetcher: x",
        "async runtime: tokio current-thread runtime build: x",
    ];
    for (n, text) in texts.iter().enumerate() {
        let mut a = nothing();
        for _ in 0..n {
            a.opened.push(Ok(()));
        }
        a.opened.push(Err(s("x")));
        match run_full_fetch(&inputs(false, false), &a) {
            PullStep::Done(Err(e)) => {
                assert_eq!(e.to_message(), *text);
                assert_eq!(e.exit_code(), 1);
            }
            other => panic!("{other:?}"),
        }
    }
}

fn failure(a: &PullAnswers) -> String {
    match run_full_fetch(&inputs(false, false), a) {
        PullStep::Done(Err(e)) => e.to_message(),
        other => panic!("{other:?}"),
    }
}

#[test]
fn every_later_failure_has_its_text() {
    let a = PullAnswers { resolved: Some(Err(s("x"))), ..signed(None) };
    assert_eq!(failure(&a), "pom resolve: x");
    let a = PullAnswers { signature: Some(Err(s("x"))), ..signed(None) };
    assert_eq!(failure(&a), "computing project signature: x");
    let a = PullAnswers { on_disk: Some(Err(s("x"))), ..signed(None) };
    assert_eq!(failure(&a), "lockfile: x");
    let a = PullAnswers { walked: Some(Err(s("x"))), ..signed(None) };
    assert_eq!(failure(&a), "resolving dependency graph: x");
    let a = PullAnswers {
        walked: Some(Ok(vec![dep("a")])),
        fetched: vec![Err(s("x"))],
        ..signed(None)
    };
    assert_eq!(failure(&a), "fetching artifact g:a:2.0: x");
    let a = PullAnswers {
        walked: Some(Ok(vec![dep("a")])),
        fetched: vec![Ok(artifact(FetchSource::Cache))],
        linked: vec![Err(s("x"))],
        ..signed(None)
    };
    assert_eq!(failure(&a), "materializing g:a:2.0 into ~/.m2: x");
}

#[test]
fn a_stale_lockfile_is_an_error_when_frozen() {
    let err = match run_full_fetch(&inputs(true, false), &signed(Some(lockfile("other")))) {
        PullStep::Done(Err(e)) => e,
        other => panic!("{other:?}"),
    };
    assert_eq!(err.exit_code(), 2);
    assert_eq!(
        err.to_message(),
        "lockfile is stale (signature mismatch): on-disk other, computed 0123456789abcdef. Re-run without `--frozen` (or with `--update`) to refresh the lockfile.",
    );
    match run(&Err(err), OutputFormat::Human, true) {
        (Shown::Line(l), 2) => assert!(l.starts_with("error: barista pull --frozen: lockfile is stale")),
        other => panic!("{other:?}"),
    }
}

fn report(step: PullStep) -> PullReport {
    match step {
        PullStep::Done(Ok(r)) => r,
        other => panic!("{other:?}"),
    }
}

#[test]
fn a_matching_lockfile_settles_everything() {
    let a = signed(Some(lockfile(SIG)));
    let r = report(run_full_fetch(&inputs(true, false), &a));
    assert_eq!(r.lockfile_status, LockfileStatus::Unchanged);
    assert_eq!((r.entries, r.fetched), (2, 0));
    assert_eq!(r.project_signature, Some(s("0123456789ab…")));
    assert_eq!(r.coords, Some(s("com.example:app:1.0")));
    assert!(r.strict && !r.no_fetch);
    let told = progress_of(&inputs(true, false), &a);
    assert_eq!(told.len(), 5);
    assert!(matches!(&told[2], ProgressEvent::Cached(c) if c == "g:a"));
    assert!(matches!(&told[4], ProgressEvent::Completed(p) if p == "pull"));
}

#[test]
fn update_resolves_anew() {
    match run_full_fetch(&inputs(false, true), &signed(Some(lockfile(SIG)))) {
        PullStep::Need(Ask::Walk(scope)) => assert_eq!(scope, WalkScope::Runtime),
        other => panic!("{other:?}"),
    }
}

fn fetched(on_disk: Option<Lockfile>) -> PullAnswers {
    PullAnswers {
        walked: Some(Ok(vec![dep("a"), dep("b")])),
        fetched: vec![Ok(artifact(FetchSource::Remote)), Ok(artifact(FetchSource::Cache))],
        linked: vec![Ok(()), Ok(())],
        ..signed(on_disk)
    }
}

#[test]
fn dependencies_are_fetched_linked_and_written() {
    let i = inputs(false, false);
    let mut a = PullAnswers { walked: Some(Ok(vec![dep("a"), dep("b")])), ..signed(None) };
    match run_full_fetch(&i, &a) {
        PullStep::Need(Ask::Fetch { index, coord }) => assert_eq!((index, coord.as_str()), (0, "g:a:2.0")),
        other => panic!("{other:?}"),
    }
    a.fetched.push(Ok(artifact(FetchSource::Remote)));
    a.fetched.push(Ok(artifact(FetchSource::Cache)));
    assert!(matches!(run_full_fetch(&i, &a), PullStep::Need(Ask::Link { index: 0 })));
    a.linked.push(Ok(()));
    assert!(matches!(run_full_fetch(&i, &a), PullStep::Need(Ask::Link { index: 1 })));
    a.linked.push(Ok(()));
    match run_full_fetch(&i, &a) {
        PullStep::Need(Ask::WriteLockfile { path, lockfile }) => {
            assert_eq!(path, "/p/barista.lock");
            assert_eq!(lockfile.meta.project_signature, SIG);
            assert_eq!(lockfile.entries.len(), 2);
            let e = &lockfile.entries[0];
            assert_eq!((e.coords.as_str(), e.scope.as_str(), e.depth), ("g:a", "runtime", 2));
            assert_eq!(e.from_path, vec![s("g:top")]);
        }
        other => panic!("{other:?}"),
    }
    a.written = Some(Ok(()));
    let r = report(run_full_fetch(&i, &a));
    assert_eq!(r.lockfile_status, LockfileStatus::Written);
    assert_eq!((r.entries, r.fetched), (2, 1));
}

#[test]
fn every_rewrite_is_reported_as_written() {
    let mut a = fetched(Some(lockfile(SIG)));
    a.written = Some(Ok(()));
    let r = report(run_full_fetch(&inputs(false, true), &a));
    assert_eq!(r.lockfile_status, LockfileStatus::Written);
    let mut other = lockfile(SIG);
    other.entries[1].version = s("3.0");
    let mut a = fetched(Some(other));
    a.written = Some(Ok(()));
    let r = report(run_full_fetch(&inputs(false, true), &a));
    assert_eq!(r.lockfile_status, LockfileStatus::Written);
}

#[test]
fn progress_grows_with_the_answers() {
    let i = inputs(false, false);
    let names = |a: &PullAnswers| -> Vec<String> {
        progress_of(&i, a).iter().map(|e| format!("{e:?}")).collect()
    };
    let mut a = signed(None);
    let mut before = names(&a);
    assert_eq!(before.len(), 2);
    let mut grow = |a: &PullAnswers| {
        let now = names(a);
        assert!(now.starts_with(&before), "{now:?}");
        let n = now.len();
        before = now;
        n
    };
    a.walked = Some(Ok(vec![dep("a"), dep("b")]));
    assert_eq!(grow(&a), 3);
    a.fetched.push(Ok(artifact(FetchSource::Remote)));
    assert_eq!(grow(&a), 5);
    a.fetched.push(Ok(artifact(FetchSource::Cache)));
    assert_eq!(grow(&a), 6);
    a.linked.push(Ok(()));
    a.linked.push(Ok(()));
    assert_eq!(grow(&a), 7);
    a.written = Some(Ok(()));
    assert_eq!(grow(&a), 8);
    assert_eq!(
        before[2..],
        [
            "Fetching(\"g:a:2.0\")",
            "Fetched(\"g:a:2.0\")",
            "Fetching(\"g:b:2.0\")",
            "Cached(\"g:b:2.0\")",
            "WritingLockfile",
            "Completed(\"pull\")",
        ],
    );
}

#[test]
fn without_fetching_the_lockfile_is_reported() {
    let (told, r) = run_no_fetch("/p", &pom(), false, &Ok(Some(lockfile(SIG))));
    let r = r.unwrap();
    assert_eq!((r.lockfile_status, r.entries, r.no_fetch), (LockfileStatus::Unchanged, 2, true));
    assert_eq!(told.len(), 5);
    let (told, r) = run_no_fetch("/p", &pom(), false, &Ok(None));
    let r = r.unwrap();
    assert_eq!((r.lockfile_status, r.entries), (LockfileStatus::Absent, 0));
    assert_eq!(r.project_signature, None);
    assert_eq!(told.len(), 3);
    let (_, r) = run_no_fetch("/p", &pom(), false, &Err(s("torn")));
    assert_eq!(r.unwrap_err().to_message(), "lockfile: torn");
}

#[test]
fn long_lists_are_flushed_now_and_then() {
    let mut lf = lockfile(SIG);
    lf.entries.clear();
    for k in 0..130 {
        lf.entries.push(build_lockfile_entry(&dep(&format!("a{k}")), &artifact(FetchSource::Cache)));
    }
    let (told, _) = run_no_fetch("/p", &pom(), false, &Ok(Some(lf)));
    let flushes: Vec<usize> = told
        .iter()
        .enumerate()
        .filter(|(_, e)| matches!(e, ProgressEvent::Flush))
        .map(|(k, _)| k)
        .collect();
    assert_eq!(flushes, vec![2 + 64, 2 + 64 + 65]);
}

#[test]
fn setting_up_goes_step_by_step() {
    let root = || ProjectRoot { root: s("/p"), pom: s("/p/pom.xml"), source: RootSource::WalkUp };
    let a = || SetupAnswers {
        root: Some(Ok(root())),
        config: Some(Ok(())),
        pom_text: Some(Ok(())),
        pom: Some(Ok(())),
    };
    assert!(matches!(run_inner(&None, false, SetupAnswers { root: None, ..a() }), SetupStep::ResolveRoot));
    assert!(matches!(
        run_inner(&None, false, SetupAnswers { config: None, ..a() }),
        SetupStep::LoadConfig(p) if p == "/p/barista.toml"
    ));
    assert!(matches!(
        run_inner(&None, false, SetupAnswers { pom_text: None, ..a() }),
        SetupStep::ReadPom(p) if p == "/p/pom.xml"
    ));
    assert!(matches!(run_inner(&None, false, SetupAnswers { pom: None, ..a() }), SetupStep::ParsePom));
    assert!(matches!(run_inner(&None, true, a()), SetupStep::NoFetch));
    assert!(matches!(run_inner(&None, false, a()), SetupStep::FullFetch));
    match run_inner(&None, false, SetupAnswers { config: Some(Err(s("x"))), ..a() }) {
        SetupStep::Failed(e) => assert_eq!(e.to_message(), "config load: x"),
        other => panic!("{other:?}"),
    }
    match run_inner(&None, false, SetupAnswers { pom_text: Some(Err(s("x"))), ..a() }) {
        SetupStep::Failed(e) => assert_eq!(e.to_message(), "I/O at \"/p/pom.xml\": x"),
        other => panic!("{other:?}"),
    }
    match run_inner(&None, false, SetupAnswers { pom: Some(Err(s("x"))), ..a() }) {
        SetupStep::Failed(e) => assert_eq!(e.to_message(), "pom parse: x"),
        other => panic!("{other:?}"),
    }
}

#[test]
fn quiet_silences_people_only() {
    let ok = || Ok(report(run_full_fetch(&inputs(false, false), &signed(Some(lockfile(SIG))))));
    assert!(matches!(run(&ok(), OutputFormat::Human, true), (Shown::Nothing, 0)));
    assert!(matches!(run(&ok(), OutputFormat::Human, false), (Shown::Report, 0)));
    assert!(matches!(run(&ok(), OutputFormat::Json, true), (Shown::Report, 0)));
    match run(&Err(PullError::Config(s("x"))), OutputFormat::Ndjson, false) {
        (Shown::Document(d), 1) => assert_eq!(d, "config load: x"),
        other => panic!("{other:?}"),
    }
}

#[test]
fn an_indexed_artifact_is_not_downloaded() {
    let entry = IndexEntry {
        hash: s("00ff"),
        size_bytes: 7,
        sha1_hex: Some(s("ab")),
        repository_url: s("http://u"),
        etag: None,
        last_modified: None,
        atime_unix: 1,
        created_unix: 1,
    };
    let start = FetchStage::Lookup { url: s("http://u") };
    let (stage, action) = fetch_artifact_to_cache(start, FetchEvent::Indexed(Some(entry)));
    assert!(matches!(action, FetchAction::CheckCas(h) if h == "00ff"));
    let (_, action) = fetch_artifact_to_cache(stage, FetchEvent::Contained(true));
    match action {
        FetchAction::Done(Ok(f)) => {
            assert_eq!(f.source, FetchSource::Cache);
            assert_eq!(f.sha1, Some(s("ab")));
        }
        other => panic!("{other:?}"),
    }
}

fn downloaded() -> (FetchStage, FetchAction) {
    let (stage, action) =
        fetch_artifact_to_cache(FetchStage::Lookup { url: s("http://u") }, FetchEvent::Indexed(None));
    assert!(matches!(action, FetchAction::Download));
    fetch_artifact_to_cache(
        stage,
        FetchEvent::Downloaded {
            artifact: Ok(Download::Fresh { size_bytes: 7, etag: Some(s("e")), last_modified: None }),
            sha256_text: None,
            sha1_text: Some(s("ab")),
        },
    )
}

#[test]
fn a_download_is_verified_stored_and_recorded() {
    let (stage, action) = downloaded();
    assert!(matches!(action, FetchAction::Verify { sha256_text: None, sha1_text: Some(_) }));
    let (stage, action) =
        fetch_artifact_to_cache(stage, FetchEvent::Verified(Ok(Verification::Sha1Verified(s("ab")))));
    assert!(matches!(action, FetchAction::Store));
    let (stage, action) = fetch_artifact_to_cache(stage, FetchEvent::Stored(Ok(s("00ff")), 99));
    match action {
        FetchAction::Record(e) => {
            assert_eq!((e.hash.as_str(), e.size_bytes, e.created_unix), ("00ff", 7, 99));
            assert_eq!(e.sha1_hex, Some(s("ab")));
        }
        other => panic!("{other:?}"),
    }
    let (_, action) = fetch_artifact_to_cache(stage, FetchEvent::Recorded(Ok(())));
    match action {
        FetchAction::Done(Ok(f)) => assert_eq!(f.source, FetchSource::Remote),
        other => panic!("{other:?}"),
    }
}

#[test]
fn every_fetch_error_has_its_text() {
    let text = |a: FetchAction| match a {
        FetchAction::Done(Err(e)) => e.to_message(),
        other => panic!("{other:?}"),
    };
    let stage = FetchStage::Download { url: s("http://u") };
    let event = FetchEvent::Downloaded { artifact: Err(s("x")), sha256_text: None, sha1_text: None };
    assert_eq!(text(fetch_artifact_to_cache(stage, event).1), "upstream HTTP: x");
    let stage = FetchStage::Download { url: s("http://u") };
    let event = FetchEvent::Downloaded {
        artifact: Ok(Download::NotModified),
        sha256_text: None,
        sha1_text: None,
    };
    assert_eq!(
        text(fetch_artifact_to_cache(stage, event).1),
        "upstream returned 304 Not Modified without conditional headers: http://u",
    );
    let (stage, _) = downloaded();
    assert_eq!(
        text(fetch_artifact_to_cache(stage, FetchEvent::Verified(Err(s("x")))).1),
        "checksum verification failed at http://u: x",
    );
    assert_eq!(ArtifactFetchError::Cas { detail: s("x") }.to_message(), "cas put: x");
    assert_eq!(ArtifactFetchError::Index { detail: s("x") }.to_message(), "index put: x");
}

#[test]
fn the_network_settings_have_floors() {
    let f = fetch_settings(None, 0, 0, true);
    assert_eq!((f.max_concurrent_connections, f.request_timeout_secs), (1, 1));
    assert_eq!(f.default_upstream, MAVEN_CENTRAL);
    assert!(f.http2_enabled);
    assert_eq!(f.user_agent, "barista/0.1.0");
    let f = fetch_settings(Some("http://mock"), 8, 30, true);
    assert_eq!(f.default_upstream, "http://mock");
    assert!(!f.http2_enabled);
    assert!(fetch_settings(Some(""), 8, 30, true).http2_enabled);
}

#[test]
fn a_torn_journal_is_told() {
    assert_eq!(
        torn_journal_warning("/cache", Some(512)),
        "barista: warning: cache index journal at /cache/index/journal.log had a torn tail; truncated at byte offset 512 and continuing.",
    );
}

#[test]
fn a_run_tells_first_that_it_started() {
    let events = setup_events();
    assert_eq!(events.len(), 1);
    assert!(matches!(&events[0], ProgressEvent::Started(p) if p == "pull"));
}

#[test]
fn a_signature_is_only_shortened_for_a_report() {
    let odd = "01234567890é and more";
    assert!(!can_shorten(odd));
    let mut a = signed(Some(lockfile(SIG)));
    a.signature = Some(Ok(s(odd)));
    assert!(can_report(&inputs(true, false), &a));
    assert!(matches!(
        run_full_fetch(&inputs(true, false), &a),
        PullStep::Done(Err(PullError::FrozenSignatureMismatch { .. }))
    ));
    a.on_disk = Some(Ok(Some(lockfile(odd))));
    assert!(!can_report(&inputs(false, false), &a));
}
