//! Taps.

use barista_cli::cli::OutputFormat;
use barista_cli::cmd::tap::{
    added_line, json_output, removed_line, resolve_config_path, run, status_exit_code,
    status_table, status_targets, tap_table, StatusView, TapCmdError, TapHealth, TapView,
};
use barista_cli::facts::{Facts, Lookup, PathKind};

fn tap(name: &str, url: &str) -> TapView {
    TapView { name: name.to_string(), url: url.to_string(), kind: "roastery".to_string() }
}

#[test]
fn tables_have_aligned_columns() {
    let text = tap_table(&vec![tap("a", "http://one"), tap("longer", "u")]);
    assert_eq!(
        text,
        "NAME    URL         KIND\na       http://one  roastery\nlonger  u           roastery\n",
    );
    assert_eq!(tap_table(&vec![]), "NAME  URL  KIND\n");
}

#[test]
fn status_tells_health() {
    let up = StatusView::new(&tap("a", "u1"), &TapHealth::Healthy { detail: "200".to_string() });
    let down =
        StatusView::new(&tap("b", "u2"), &TapHealth::Unhealthy { reason: "timeout".to_string() });
    assert!(up.healthy && !down.healthy);
    assert_eq!(status_exit_code(&vec![]), 0);
    let views = vec![up, down];
    assert_eq!(status_exit_code(&views), 1);
    assert_eq!(status_table(&views), "a     u1   HEALTHY (200)\nb     u2   UNHEALTHY (timeout)\n");
}

#[test]
fn a_named_tap_has_to_be_registered() {
    let err = status_targets(Some("x"), None, vec![tap("a", "u")]).unwrap_err();
    assert_eq!(err.to_message(), "no tap named 'x' is registered");
    assert_eq!(status_targets(Some("a"), Some(tap("a", "u")), vec![]).unwrap().len(), 1);
    assert_eq!(status_targets(None, None, vec![tap("a", "u"), tap("b", "v")]).unwrap().len(), 2);
}

#[test]
fn errors_are_told_to_people_and_programs() {
    let e = || TapCmdError::Runtime("no threads".to_string());
    assert_eq!(
        run(Err(e()), OutputFormat::Human),
        (Some("error: could not start probe runtime: no threads".to_string()), 1),
    );
    assert_eq!(
        run(Err(e()), OutputFormat::Json),
        (Some("could not start probe runtime: no threads".to_string()), 1),
    );
    assert_eq!(run(Ok(0), OutputFormat::Ndjson), (None, 0));
    assert!(json_output(OutputFormat::Ndjson) && !json_output(OutputFormat::Human));
    assert_eq!(TapCmdError::Serialize("x".to_string()).to_message(), "serializing output: x");
    assert_eq!(TapCmdError::Tap("bad url".to_string()).to_message(), "bad url");
    assert_eq!(TapCmdError::Persist("denied".to_string()).to_message(), "denied");
}

#[test]
fn lines_about_taps() {
    assert_eq!(added_line("a", "http://x", "worker"), "added tap 'a' -> http://x (worker)");
    assert_eq!(removed_line("a", true), "removed tap 'a'");
    assert_eq!(removed_line("a", false), "no tap named 'a' (nothing to remove)");
}

fn known(r: Lookup<String>) -> String {
    match r {
        Lookup::Known(s) => s,
        other => panic!("{other:?}"),
    }
}

#[test]
fn the_configuration_is_found_in_order() {
    let s = |x: &str| Some(x.to_string());
    let mut facts = Facts::new();
    facts.record_kind("/w/pom.xml".to_string(), PathKind::File);
    facts.record_kind("/a/b/barista.toml".to_string(), PathKind::Missing);
    facts.record_kind("/a/b/.git".to_string(), PathKind::Missing);
    facts.record_kind("/a/barista.toml".to_string(), PathKind::File);
    assert_eq!(known(resolve_config_path(&s("/c"), &s("/r"), &s("/w/pom.xml"), "/a/b", &facts)), "/c");
    assert_eq!(
        known(resolve_config_path(&None, &s("/r"), &s("/w/pom.xml"), "/a/b", &facts)),
        "/r/barista.toml",
    );
    assert_eq!(
        known(resolve_config_path(&None, &None, &s("/w/pom.xml"), "/a/b", &facts)),
        "/w/barista.toml",
    );
    assert_eq!(known(resolve_config_path(&None, &None, &None, "/a/b", &facts)), "/a/barista.toml");
    let mut fenced = Facts::new();
    fenced.record_kind("/a/b/barista.toml".to_string(), PathKind::Missing);
    fenced.record_kind("/a/b/.git".to_string(), PathKind::Dir);
    assert_eq!(known(resolve_config_path(&None, &None, &None, "/a/b", &fenced)), "/a/b/barista.toml");
}
