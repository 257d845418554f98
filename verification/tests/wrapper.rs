//! The launchers of a project.

use barista_cli::cli::WrapperArgs;
use barista_cli::cmd::wrapper::{
    current_barista_version, escape, generate, plan_of, render_properties, resolve_target_dir, run,
    run_inner, GeneratePlan, WrapperError, DEFAULT_DISTRIBUTION_URL,
};
use barista_cli::facts::{Facts, Lookup, PathKind};

fn plan(version: &str, checksum: Option<&str>, force: bool) -> GeneratePlan {
    GeneratePlan {
        target_dir: "/tmp/example".to_string(),
        version: version.to_string(),
        distribution_url: DEFAULT_DISTRIBUTION_URL.to_string(),
        checksum_sha256: checksum.map(String::from),
        force,
    }
}

#[test]
fn render_properties_round_trips_through_toml() {
    let text = render_properties(&plan("0.1.0-alpha.0", Some("abc123"), false));
    let parsed: toml::Value = toml::from_str(&text).expect("valid TOML");
    assert_eq!(parsed["version"].as_str(), Some("0.1.0-alpha.0"));
    assert_eq!(parsed["distribution_url"].as_str(), Some(DEFAULT_DISTRIBUTION_URL));
    assert_eq!(parsed["checksum_sha256"].as_str(), Some("abc123"));
}

#[test]
fn render_properties_emits_empty_checksum_when_absent() {
    let text = render_properties(&plan("0.2.0", None, false));
    assert!(text.contains("checksum_sha256 = \"\""));
}

#[test]
fn every_string_reads_back_from_the_properties() {
    for odd in ["a\"b", "c:\\maven\\", "two\nlines\r\n", "tab\there", "\u{1}\u{7f}\u{8}\u{c}", "caf\u{e9} \u{1f980}", ""] {
        let mut p = plan(odd, Some(odd), false);
        p.distribution_url = odd.to_string();
        let text = render_properties(&p);
        let parsed: toml::Value = toml::from_str(&text).expect("valid TOML");
        for key in ["version", "distribution_url", "checksum_sha256"] {
            assert_eq!(parsed[key].as_str(), Some(odd), "{key}");
        }
    }
}

#[test]
fn special_characters_are_escaped() {
    assert_eq!(escape("a\"b\\"), "a\\\"b\\\\");
    assert_eq!(escape("\n\t\u{1}\u{7f}"), "\\u000a\\u0009\\u0001\\u007f");
    assert_eq!(escape("plain"), "plain");
}

#[test]
fn current_version_matches_cargo_pkg_version() {
    assert_eq!(current_barista_version(), "0.1.0");
}

fn all_missing() -> Facts {
    let mut facts = Facts::new();
    for leaf in ["baristaw", "baristaw.cmd", ".barista/wrapper.properties"] {
        facts.record_kind(format!("/tmp/example/{leaf}"), PathKind::Missing);
    }
    facts
}

#[test]
fn three_files_are_written_in_order() {
    let p = plan("0.2.0", None, false);
    let outcome = match generate(&p, &all_missing(), "#!/bin/sh\n", "@echo off\r\n") {
        Lookup::Known(Ok(o)) => o,
        other => panic!("{other:?}"),
    };
    assert_eq!(
        outcome.written,
        vec![
            "/tmp/example/baristaw",
            "/tmp/example/baristaw.cmd",
            "/tmp/example/.barista/wrapper.properties",
        ],
    );
    let files: Vec<(&str, &str, bool)> = outcome
        .files
        .iter()
        .map(|f| (f.path.as_str(), f.contents.as_str(), f.executable))
        .collect();
    let properties = render_properties(&p);
    assert_eq!(
        files,
        vec![
            ("/tmp/example/baristaw", "#!/bin/sh\n", true),
            ("/tmp/example/baristaw.cmd", "@echo off\r\n", false),
            ("/tmp/example/.barista/wrapper.properties", properties.as_str(), false),
        ],
    );
    assert_eq!(
        run_inner(&p, &outcome),
        "baristaw: wrote 3 files under /tmp/example (version 0.2.0)",
    );
}

#[test]
fn an_existing_file_is_not_overwritten() {
    let mut facts = Facts::new();
    facts.record_kind("/tmp/example/baristaw".to_string(), PathKind::Missing);
    facts.record_kind("/tmp/example/baristaw.cmd".to_string(), PathKind::File);
    let err = match generate(&plan("0.2.0", None, false), &facts, "", "") {
        Lookup::Known(Err(e)) => e,
        other => panic!("{other:?}"),
    };
    assert_eq!(
        err.to_message(),
        "\"/tmp/example/baristaw.cmd\" already exists. Re-run with `--force` to overwrite, or delete the file first.",
    );
    assert!(matches!(generate(&plan("0.2.0", None, true), &facts, "", ""), Lookup::Known(Ok(_))));
    assert!(matches!(
        generate(&plan("0.2.0", None, false), &Facts::new(), "", ""),
        Lookup::NeedKind(p) if p == "/tmp/example/baristaw"
    ));
}

#[test]
fn the_target_is_the_root_or_the_current_directory() {
    let mut facts = Facts::new();
    facts.record_kind("/p".to_string(), PathKind::File);
    match resolve_target_dir(&Some("/p".to_string()), &facts, Ok("/cwd".to_string())) {
        Lookup::Known(Err(e)) => {
            assert!(matches!(e, WrapperError::TargetNotDirectory { .. }));
            assert_eq!(e.to_message(), "`--root \"/p\"` is not a directory");
        }
        other => panic!("{other:?}"),
    }
    match resolve_target_dir(&None, &facts, Ok("/cwd".to_string())) {
        Lookup::Known(Ok(d)) => assert_eq!(d, "/cwd"),
        other => panic!("{other:?}"),
    }
    match resolve_target_dir(&None, &facts, Err("gone".to_string())) {
        Lookup::Known(Err(e)) => assert_eq!(e.to_message(), "I/O at \".\": gone"),
        other => panic!("{other:?}"),
    }
}

#[test]
fn arguments_override_the_defaults() {
    let none = WrapperArgs { version: None, distribution_url: None, checksum: None, force: false };
    let p = plan_of("/d".to_string(), &none);
    assert_eq!(p.version, "0.1.0");
    assert_eq!(p.distribution_url, DEFAULT_DISTRIBUTION_URL);
    let some = WrapperArgs {
        version: Some("9".to_string()),
        distribution_url: Some("u".to_string()),
        checksum: Some("c".to_string()),
        force: true,
    };
    let p = plan_of("/d".to_string(), &some);
    assert_eq!((p.version.as_str(), p.distribution_url.as_str(), p.force), ("9", "u", true));
    assert_eq!(p.checksum_sha256, Some("c".to_string()));
}

#[test]
fn quiet_hides_the_summary_only() {
    assert_eq!(run(Ok("done".to_string()), false), (Some("done".to_string()), 0));
    assert_eq!(run(Ok("done".to_string()), true), (None, 0));
    let e = WrapperError::Io { path: "/x".to_string(), source: "full".to_string() };
    assert_eq!(
        run(Err(e), true),
        (Some("error: barista wrapper failed: I/O at \"/x\": full".to_string()), 1),
    );
}
