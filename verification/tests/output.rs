//! Renderers and sinks.

use barista_cli::calendar::{format_iso8601_utc, rfc3339_millis};
use barista_cli::cli::OutputFormat;
use barista_cli::output::human::{render_tree_text, HumanRenderer};
use barista_cli::output::json::{json_string, JsonRenderer};
use barista_cli::output::ndjson::{schema_phase_for, NdjsonRenderer};
use barista_cli::output::progress::{
    make_progress_sink, HumanSink, NdjsonSink, NullSink, ProgressEvent, ProgressSink, Sink,
};
use barista_cli::output::report::{
    GrindTreeReport, LockfileStatus, PourReport, PullReport, ReactorModule, TreeNode,
};
use barista_cli::output::{make_renderer, wants_ansi, IoKind, RenderError, Renderer};

const TS: &str = "2026-05-14T12:34:56.789Z";

#[test]
fn unix_epoch_is_formatted_correctly() {
    assert_eq!(rfc3339_millis(0, 0), "1970-01-01T00:00:00.000Z");
}

#[test]
fn known_timestamp_matches() {
    // 2026-05-14T12:34:56.789Z
    let secs = 1_778_762_096_u64;
    assert_eq!(rfc3339_millis(secs, 789), "2026-05-14T12:34:56.789Z");
}

#[test]
fn leap_year_feb_29_renders() {
    assert_eq!(rfc3339_millis(1_709_164_800, 0), "2024-02-29T00:00:00.000Z");
}

#[test]
fn null_sink_writes_nothing() {
    let mut s = NullSink;
    s.started("pull");
    s.fetching("a:b:c", Some("50.0"));
    s.fetched("a:b:c");
    s.completed("pull");
}

#[test]
fn human_sink_writes_nothing_at_v01() {
    let mut s = HumanSink::with_stderr(String::new());
    s.started("pull");
    s.cached("a:b:c");
    s.completed("pull");
    assert_eq!(s.err, "", "HumanSink is a no-op at v0.1");
}

#[test]
fn ndjson_sink_emits_one_line_per_event() {
    let mut s = NdjsonSink::with_fixed_timestamp(TS.to_string());
    s.started("pull");
    s.cached("com.example:a:1.0");
    s.cached("com.example:b:2.0");
    s.completed("pull");
    let text = s.into_renderer().out;
    let lines: Vec<&str> = text.lines().collect();
    // started + 2 cached + completed = 4 lines.
    assert_eq!(lines.len(), 4);
    assert!(lines[0].contains("\"event\":\"started\""));
    assert!(lines[1].contains("\"coord\":\"com.example:a:1.0\""));
    assert!(lines[2].contains("\"coord\":\"com.example:b:2.0\""));
    assert!(lines[3].contains("\"event\":\"completed\""));
}

#[test]
fn ndjson_sink_omits_optional_keys() {
    let mut s = NdjsonSink::with_fixed_timestamp(TS.to_string());
    s.started("pull");
    let line = s.into_renderer().out;
    // `started` has no coord, no progress, no payload. Verify
    // the JSON shape contains none of them.
    assert!(!line.contains("\"coord\""));
    assert!(!line.contains("\"progress\""));
    assert!(!line.contains("\"payload\""));
}

#[test]
fn make_progress_sink_dispatches_by_format() {
    assert!(matches!(make_progress_sink(OutputFormat::Human, TS.to_string()), Sink::Human(_)));
    assert!(matches!(make_progress_sink(OutputFormat::Json, TS.to_string()), Sink::Null(_)));
    assert!(matches!(make_progress_sink(OutputFormat::Ndjson, TS.to_string()), Sink::Ndjson(_)));
}

#[test]
fn every_event_is_valid_json_on_one_line() {
    let mut r = NdjsonRenderer::with_fixed_timestamp(TS.to_string());
    r.emit_started("fetch");
    r.emit_resolving(None, Some("12.5"));
    r.emit_fetching("a\nb\"c", None);
    r.emit_fetched("g:a:1");
    r.emit_cached("g:a:1");
    r.emit_writing_lockfile();
    r.emit_completed("pull");
    r.render_result("{\"command\":\"pull\"}");
    r.render_error("line\nbreak");
    let lines: Vec<&str> = r.out.lines().collect();
    assert_eq!(lines.len(), 9);
    for line in &lines {
        let v: serde_json::Value = serde_json::from_str(line).expect(line);
        assert_eq!(v["timestamp"].as_str(), Some(TS));
    }
    assert_eq!(
        lines[0],
        "{\"event\":\"started\",\"timestamp\":\"2026-05-14T12:34:56.789Z\",\"phase\":\"fetch\"}",
    );
    let v: serde_json::Value = serde_json::from_str(lines[1]).unwrap();
    assert_eq!(v["progress"].as_f64(), Some(12.5));
    assert_eq!(v["phase"].as_str(), Some("resolve"));
    let v: serde_json::Value = serde_json::from_str(lines[2]).unwrap();
    assert_eq!(v["coord"].as_str(), Some("a\nb\"c"));
    let v: serde_json::Value = serde_json::from_str(lines[8]).unwrap();
    assert_eq!(v["payload"]["message"].as_str(), Some("line\nbreak"));
}

#[test]
fn only_fine_grained_phases_are_named() {
    assert_eq!(schema_phase_for("pour"), Some("pour"));
    assert_eq!(schema_phase_for("pull"), None);
}

#[test]
fn the_clock_moves_unless_it_is_pinned() {
    let mut r = NdjsonRenderer::new("t0".to_string());
    r.emit_writing_lockfile();
    r.set_now("t1".to_string());
    r.emit_writing_lockfile();
    assert!(r.out.contains("\"t0\"") && r.out.contains("\"t1\""));
    let mut p = NdjsonRenderer::with_fixed_timestamp("t0".to_string());
    p.set_now("t1".to_string());
    p.emit_writing_lockfile();
    assert!(!p.out.contains("\"t1\""));
}

#[test]
fn a_second_json_document_is_refused() {
    let mut j = JsonRenderer::new(false);
    j.write_doc("{}").unwrap();
    let err = j.write_doc("{}").unwrap_err();
    assert_eq!(j.out, "{}\n");
    assert_eq!(
        err.to_message(),
        "output write: JsonRenderer already emitted a document; only one document is permitted per invocation",
    );
    assert!(matches!(err, RenderError::Io(IoKind::InvalidInput, _)));
    assert_eq!(
        RenderError::Io(IoKind::System, "full".to_string()).to_message(),
        "output write: full",
    );
    assert_eq!(RenderError::Serialize("x".to_string()).to_message(), "output serialization: x");
}

#[test]
fn error_documents_are_json_in_both_styles() {
    for pretty in [false, true] {
        let mut j = JsonRenderer::new(pretty);
        j.render_error("no \"pom\"\n").unwrap();
        let v: serde_json::Value = serde_json::from_str(&j.out).unwrap();
        assert_eq!(v["command"].as_str(), Some("error"));
        assert_eq!(v["message"].as_str(), Some("no \"pom\"\n"));
        assert_eq!(j.out.trim_end().contains('\n'), pretty);
    }
}

fn pull_report() -> PullReport {
    PullReport {
        project_root: "/p".to_string(),
        lockfile_status: LockfileStatus::Unchanged,
        entries: 2,
        fetched: 0,
        project_signature: Some("abc".to_string()),
        coords: Some("g:a:1".to_string()),
        no_fetch: false,
        strict: false,
    }
}

#[test]
fn each_format_gets_its_own_renderer() {
    let mut h = make_renderer(OutputFormat::Human, true, TS.to_string());
    h.render_pull(&pull_report(), "{}").unwrap();
    match h {
        Renderer::Human(HumanRenderer { out, err, ansi }) => {
            assert_eq!(out, "");
            assert!(err.starts_with("pull: ") && err.ends_with('\n'));
            assert!(ansi);
        }
        other => panic!("{other:?}"),
    }
    let mut j = make_renderer(OutputFormat::Json, false, TS.to_string());
    j.render_pull(&pull_report(), "{\"command\":\"pull\"}").unwrap();
    assert!(j.render_error("late").is_err());
    match j {
        Renderer::Json(j) => assert_eq!(j.out, "{\"command\":\"pull\"}\n"),
        other => panic!("{other:?}"),
    }
    let mut n = make_renderer(OutputFormat::Ndjson, false, TS.to_string());
    n.render_pull(&pull_report(), "{}").unwrap();
    n.render_error("late").unwrap();
    match n {
        Renderer::Ndjson(n) => assert_eq!(n.out.lines().count(), 2),
        other => panic!("{other:?}"),
    }
}

#[test]
fn colour_needs_a_terminal() {
    assert!(wants_ansi(false, true));
    assert!(!wants_ansi(true, true));
    assert!(!wants_ansi(false, false));
}

#[test]
fn sinks_play_events() {
    let mut s = Sink::Ndjson(NdjsonSink::with_fixed_timestamp(TS.to_string()));
    s.play(&ProgressEvent::Resolving(Some("g:a:1".to_string())));
    s.play(&ProgressEvent::Flush);
    s.play(&ProgressEvent::WritingLockfile);
    match s {
        Sink::Ndjson(n) => assert_eq!(n.into_renderer().out.lines().count(), 2),
        other => panic!("{other:?}"),
    }
}

#[test]
fn a_pour_tells_its_counts() {
    let r = PourReport {
        target: "/m2".to_string(),
        scope: "compile".to_string(),
        considered: 3,
        planned: 2,
        materialized: 0,
        dry_run: true,
        planned_paths: vec![],
    };
    assert_eq!(r.summary(), "dry-run: 2 of 3 entries (scope=compile) → /m2");
}

fn node(coords: &str, from_path: &[&str]) -> TreeNode {
    TreeNode {
        coords: coords.to_string(),
        version: "1".to_string(),
        scope: "compile".to_string(),
        depth: from_path.len() as u32,
        from_path: from_path.iter().map(|s| s.to_string()).collect(),
    }
}

fn tree(nodes: Vec<TreeNode>) -> GrindTreeReport {
    GrindTreeReport {
        schema_version: 1,
        reactor: vec![ReactorModule {
            coords: "g:root".to_string(),
            version: "9".to_string(),
            relative_path: ".".to_string(),
        }],
        nodes,
    }
}

#[test]
fn a_child_stands_below_its_parent() {
    let text = render_tree_text(&tree(vec![
        node("g:a", &[]),
        node("g:b", &[]),
        node("g:c", &["g:a"]),
    ]));
    assert!(text.contains("├── g:a:1  [compile]\n│   └── g:c:1  [compile]\n└── g:b:1  [compile]\n"));
    assert!(!text.contains("orphan"));
}

#[test]
fn what_lies_below_an_orphan_is_shown_too() {
    let text = render_tree_text(&tree(vec![
        node("g:a", &[]),
        node("g:y", &["g:a", "g:x"]),
        node("g:z", &["g:a", "g:x", "g:y"]),
        node("g:q", &["g:gone"]),
    ]));
    assert!(text.ends_with(
        "\n(orphan transitives)\n├── g:y:1  [compile]\n│   └── g:z:1  [compile]\n└── g:q:1  [compile]\n"
    ));
    for c in ["g:a", "g:y", "g:z", "g:q"] {
        assert_eq!(text.matches(&format!("{c}:1")).count(), 1, "{c}");
    }
}

#[test]
fn every_event_is_one_line() {
    let told = [
        ProgressEvent::Started("pull".to_string()),
        ProgressEvent::Resolving(None),
        ProgressEvent::Fetching("g:a\n:1".to_string()),
        ProgressEvent::Flush,
        ProgressEvent::Fetched("g:a\n:1".to_string()),
        ProgressEvent::Cached("g:b:1".to_string()),
        ProgressEvent::WritingLockfile,
        ProgressEvent::Completed("pull".to_string()),
    ];
    let mut s = Sink::Ndjson(NdjsonSink::with_fixed_timestamp(TS.to_string()));
    for e in &told {
        s.play(e);
    }
    match s {
        Sink::Ndjson(n) => {
            assert_eq!(n.into_renderer().out.matches('\n').count(), told.len() - 1);
        }
        other => panic!("{other:?}"),
    }
}

#[test]
fn later_times_have_greater_texts() {
    let times = [
        (0, 0),
        (0, 1),
        (59, 999),
        (60, 0),
        (86_399, 999),
        (86_400, 0),
        (1_709_164_799, 999),
        (1_709_164_800, 0),
        (1_735_689_600, 0),
        (253_402_300_799, 999),
    ];
    for pair in times.windows(2) {
        let (a, b) = (pair[0], pair[1]);
        assert!(rfc3339_millis(a.0, a.1) < rfc3339_millis(b.0, b.1), "{a:?} {b:?}");
        assert!(format_iso8601_utc(a.0) <= format_iso8601_utc(b.0));
    }
    assert!(format_iso8601_utc(253_402_300_800) < format_iso8601_utc(253_402_300_799));
}

#[test]
fn json_strings_are_escaped() {
    assert_eq!(json_string("a\"b\\c/"), r#""a\"b\\c/""#);
    assert_eq!(json_string("\u{8}\u{c}\n\r\t"), r#""\b\f\n\r\t""#);
    assert_eq!(json_string("\u{0}\u{1f}\u{7f}"), "\"\\u0000\\u001f\u{7f}\"");
    assert_eq!(json_string("caf\u{e9} \u{1f980}\u{2028}"), "\"caf\u{e9} \u{1f980}\u{2028}\"");
    assert_eq!(json_string(""), "\"\"");
}
