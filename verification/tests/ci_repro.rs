//! Reproducibility seeds.

use barista_cli::action_graph::{build_action_request, lifecycle_graph, verify_graph, ActionRequest};
use barista_cli::calendar::format_iso8601_utc;
use barista_cli::cmd::ci_repro::{
    apply_to_request, build_seed, git_head_time, resolve_source_date_epoch, sent_seed,
    unclaimed_bindings, unset_bindings, EpochSource, FIXED_SENTINEL_EPOCH,
};
use barista_cli::cmd::maven_vocab::MavenPhase;
use barista_cli::facts::Binding;

fn get<'a>(bs: &'a [Binding], key: &str) -> Option<&'a str> {
    bs.iter().find(|b| b.key == key).map(|b| b.value.as_str())
}

fn bind(key: &str, value: &str) -> Binding {
    Binding { key: key.to_string(), value: value.to_string() }
}

fn blank_request() -> ActionRequest {
    let g = verify_graph("/p".to_string(), false);
    let mut req = build_action_request(&g, &g.actions[0], "/p");
    req.maven_compat = String::new();
    req.environment.clear();
    req.system_properties.clear();
    req
}

#[test]
fn build_seed_falls_through_to_sentinel_when_no_git_no_env() {
    let (epoch, src) = resolve_source_date_epoch(None, None);
    assert_eq!(epoch, FIXED_SENTINEL_EPOCH.to_string());
    assert_eq!(src, EpochSource::FixedZero);
}

#[test]
fn build_seed_honors_user_override_env() {
    let (epoch, src) = resolve_source_date_epoch(Some("1700000000"), None);
    assert_eq!(epoch, "1700000000");
    assert_eq!(src, EpochSource::EnvOverride);
}

#[test]
fn build_seed_uses_git_head_when_no_override() {
    let (epoch, src) = resolve_source_date_epoch(None, Some(1_700_000_000u64));
    assert_eq!(epoch, "1700000000");
    assert_eq!(src, EpochSource::GitHead);
}

#[test]
fn env_override_wins_over_git_head() {
    let (epoch, src) = resolve_source_date_epoch(Some("42"), Some(1_700_000_000u64));
    assert_eq!(epoch, "42");
    assert_eq!(src, EpochSource::EnvOverride);
}

#[test]
fn malformed_env_override_is_ignored() {
    let (epoch, src) = resolve_source_date_epoch(Some("not-a-number"), Some(1_700_000_000u64));
    assert_eq!(epoch, "1700000000");
    assert_eq!(src, EpochSource::GitHead);
}

#[test]
fn format_iso8601_for_epoch_zero() {
    assert_eq!(format_iso8601_utc(0), "1970-01-01T00:00:00Z");
}

#[test]
fn format_iso8601_for_known_value() {
    assert_eq!(format_iso8601_utc(1_700_000_000), "2023-11-14T22:13:20Z");
}

#[test]
fn format_iso8601_for_year_boundary() {
    assert_eq!(format_iso8601_utc(1_577_836_800), "2020-01-01T00:00:00Z");
}

#[test]
fn build_seed_populates_ci_environment_keys() {
    let seed = build_seed(&vec![], None);
    assert!(get(&seed.env, "SOURCE_DATE_EPOCH").is_some());
    assert_eq!(get(&seed.env, "TZ"), Some("UTC"));
    assert_eq!(get(&seed.env, "LC_ALL"), Some("C"));
}

#[test]
fn build_seed_populates_project_build_outputtimestamp() {
    let seed = build_seed(&vec![], None);
    assert_eq!(
        get(&seed.system_properties, "project.build.outputTimestamp"),
        Some("2020-01-01T00:00:00Z"),
    );
}

#[test]
fn apply_to_request_merges_env_without_clobber() {
    let mut req = blank_request();
    req.environment.push(bind("TZ", "Europe/Berlin"));
    let seed = build_seed(&vec![], None);
    apply_to_request(&mut req, &seed);
    assert_eq!(get(&req.environment, "TZ"), Some("Europe/Berlin"));
    assert_eq!(get(&req.environment, "LC_ALL"), Some("C"));
    assert!(get(&req.system_properties, "project.build.outputTimestamp").is_some());
}

#[test]
fn apply_to_request_pins_maven_compat_when_blank() {
    let mut req = blank_request();
    let seed = build_seed(&vec![], None);
    apply_to_request(&mut req, &seed);
    assert_eq!(req.maven_compat, "4");
}

#[test]
fn apply_to_request_preserves_user_set_maven_compat() {
    let mut req = blank_request();
    req.maven_compat = "3.9".to_string();
    let seed = build_seed(&vec![], None);
    apply_to_request(&mut req, &seed);
    assert_eq!(req.maven_compat, "3.9", "user-set maven_compat must survive --ci");
}

#[test]
fn apply_to_request_does_not_clobber_outputtimestamp_user_override() {
    let mut req = blank_request();
    req.system_properties.push(bind("project.build.outputTimestamp", "2099-12-31T23:59:59Z"));
    let seed = build_seed(&vec![], None);
    apply_to_request(&mut req, &seed);
    assert_eq!(
        get(&req.system_properties, "project.build.outputTimestamp"),
        Some("2099-12-31T23:59:59Z"),
    );
}

#[test]
fn ci_macro_populates_reproducibility_env_on_action_request() {
    let graph = lifecycle_graph(MavenPhase::Verify, "/tmp/proj".to_string(), false);
    let seed = build_seed(&vec![bind("BARISTA_SOURCE_DATE_EPOCH", "1700000000")], None);
    let mut req = build_action_request(&graph, &graph.actions[0], "/tmp/proj");
    apply_to_request(&mut req, &seed);

    assert_eq!(get(&req.environment, "SOURCE_DATE_EPOCH"), Some("1700000000"));
    assert_eq!(get(&req.environment, "TZ"), Some("UTC"));
    assert_eq!(get(&req.environment, "LC_ALL"), Some("C"));
    assert_eq!(
        get(&req.system_properties, "project.build.outputTimestamp"),
        Some("2023-11-14T22:13:20Z"),
    );
    assert_eq!(req.maven_compat, "4");
}

#[test]
fn seeding_twice_changes_nothing_more() {
    let seed = build_seed(&vec![], Some(1_700_000_000));
    let mut once = blank_request();
    apply_to_request(&mut once, &seed);
    let before = format!("{once:?}");
    apply_to_request(&mut once, &seed);
    assert_eq!(before, format!("{once:?}"));
}

#[test]
fn a_property_that_the_user_defines_is_not_seeded() {
    let seed = build_seed(&vec![], None);
    for (arg, claimed) in [
        ("-Dproject.build.outputTimestamp=1", true),
        ("-Dproject.build.outputTimestamp", true),
        ("-Dproject.build.outputTimestampX=1", false),
        ("verify", false),
    ] {
        let mut req = blank_request();
        req.arguments.push(arg.to_string());
        apply_to_request(&mut req, &seed);
        assert_eq!(
            get(&req.system_properties, "project.build.outputTimestamp").is_none(),
            claimed,
            "{arg}",
        );
        assert_eq!(get(&req.environment, "TZ"), Some("UTC"));
        let kept = unclaimed_bindings(&seed.system_properties, &req.arguments);
        assert_eq!(get(&kept, "project.build.outputTimestamp").is_none(), claimed);
    }
}

#[test]
fn only_unset_variables_are_added() {
    let seed = build_seed(&vec![], None);
    let left = unset_bindings(&seed.env, &vec![bind("TZ", "Europe/Berlin")]);
    assert_eq!(get(&left, "TZ"), None);
    assert_eq!(get(&left, "LC_ALL"), Some("C"));
    assert_eq!(left.len() + 1, seed.env.len());
}

#[test]
fn git_output_is_trimmed_and_checked() {
    assert_eq!(git_head_time(true, 3, "1700000000\n"), Some(1_700_000_000));
    assert_eq!(git_head_time(false, 3, "1700000000\n"), None);
    assert_eq!(git_head_time(true, 3, "fatal"), None);
    assert_eq!(git_head_time(true, 99, "1700000000\n"), Some(1_700_000_000));
    assert_eq!(git_head_time(true, 100, "1700000000\n"), None);
}

#[test]
fn a_sent_seed_leaves_set_variables_out() {
    let seed = sent_seed(&vec![bind("TZ", "CET"), bind("LC_ALL", "")], Some(7));
    assert_eq!(seed.source_date_epoch, "7");
    assert_eq!(get(&seed.env, "SOURCE_DATE_EPOCH"), Some("7"));
    assert_eq!(get(&seed.env, "TZ"), None);
    assert_eq!(get(&seed.env, "LC_ALL"), None);
    assert_eq!(seed.system_properties.len(), 1);
}
