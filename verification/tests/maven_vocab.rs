//! Phase names and argument lists.

use barista_cli::cmd::maven_vocab::{args_summary, MavenPhase};

#[test]
fn phase_as_str_round_trips() {
    let all = [
        (MavenPhase::Clean, "clean"),
        (MavenPhase::Compile, "compile"),
        (MavenPhase::Test, "test"),
        (MavenPhase::Package, "package"),
        (MavenPhase::Verify, "verify"),
        (MavenPhase::Install, "install"),
        (MavenPhase::Deploy, "deploy"),
        (MavenPhase::Site, "site"),
    ];
    for (variant, s) in all {
        assert_eq!(variant.as_str(), s);
    }
}

#[test]
fn args_summary_empty_is_none_marker() {
    assert_eq!(args_summary(&vec![]), "(none)");
}

#[test]
fn args_summary_backticks_each_arg() {
    let v = vec!["-DskipTests".to_string(), "-Dx=1".to_string()];
    assert_eq!(args_summary(&v), "`-DskipTests` `-Dx=1`");
}

#[test]
fn names_lead_back_to_phases() {
    assert_eq!(MavenPhase::from_phase_name("site").map(|p| p.as_str()), Some("site"));
    assert!(MavenPhase::from_phase_name("Site").is_none());
}
