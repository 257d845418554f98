//! Text, paths, dates and the command line.

use barista_cli::calendar::civil_from_days;
use barista_cli::cli::{dispatch, Cli, Command, GlobalFlags, MavenVocabArgs, OutputFormat, PullArgs, Route, ScopeArg};
use barista_cli::digest::hex_digest;
use barista_cli::paths;
use barista_cli::text;

#[test]
fn numbers_print_and_read_back() {
    for n in [0u64, 7, 10, 65_535, u64::MAX] {
        assert_eq!(text::dec_u64(n), n.to_string());
        assert_eq!(text::parse_unsigned(&text::dec_u64(n), u64::MAX), Some(n));
    }
    assert_eq!(text::parse_unsigned("+5", 10), Some(5));
    assert_eq!(text::parse_unsigned("11", 10), None);
    assert_eq!(text::parse_unsigned("", 10), None);
    assert_eq!(text::dec_i64(i64::MIN), i64::MIN.to_string());
    assert_eq!(text::parse_i32("-12"), Some(-12));
}

#[test]
fn lists_are_joined() {
    let v = vec!["a".to_string(), "b".to_string()];
    assert_eq!(text::join(&v, ", "), "a, b");
    assert_eq!(text::quoted_list(&v), "[\"a\", \"b\"]");
}

#[test]
fn blanks_are_trimmed() {
    assert_eq!(text::trim(" \t a b\u{a0}\n"), " \t a b\u{a0}\n".trim());
    assert_eq!(text::lower("AbÉ"), "AbÉ".to_ascii_lowercase());
}

#[test]
fn paths_join_and_climb() {
    assert_eq!(paths::join("/a", "b"), "/a/b");
    assert_eq!(paths::join("/a/", "b"), "/a/b");
    assert_eq!(paths::join("/a", "/b"), "/b");
    assert_eq!(paths::parent("/a/b"), Some("/a".to_string()));
    assert_eq!(paths::parent("/a"), Some("/".to_string()));
    assert_eq!(paths::parent("a"), Some(String::new()));
    assert_eq!(paths::parent("/"), None);
}

#[test]
fn days_become_dates() {
    let d = civil_from_days(19_782);
    assert_eq!((d.year, d.month, d.day), (2024, 2, 29));
}

#[test]
fn digests_are_hexadecimal() {
    assert_eq!(
        hex_digest("abc"),
        "ba7816bf8f01cfea414140de5dae2223b00361a396177a9cb410ff61f20015ad",
    );
}

fn globals(ci: bool) -> GlobalFlags {
    GlobalFlags {
        output: OutputFormat::Human,
        ci,
        quiet: false,
        verbose: 0,
        root: None,
        file: None,
        strict: false,
        frozen: false,
        no_daemon: false,
        maven_compat: None,
        config: None,
        no_color: false,
    }
}

#[test]
fn ci_is_a_shortcut() {
    let pull = || Command::Pull(PullArgs { update: false, no_fetch: true, explain: false, scope: ScopeArg::Compile });
    let (g, route) = dispatch(Cli { global: globals(true), command: pull() });
    assert!(g.frozen && g.quiet && g.no_color);
    assert_eq!(g.output, OutputFormat::Json);
    assert!(matches!(route, Route::Pull(a) if a.no_fetch));
    let (g, _) = dispatch(Cli { global: globals(false), command: pull() });
    assert!(!g.frozen && !g.quiet);
}

#[test]
fn phases_are_routed_by_name() {
    let command = Command::Install(MavenVocabArgs { args: vec!["-q".to_string()] });
    match dispatch(Cli { global: globals(false), command }).1 {
        Route::Lifecycle(p, a) => {
            assert_eq!(p.as_str(), "install");
            assert_eq!(a.args.len(), 1);
        }
        other => panic!("{other:?}"),
    }
}
