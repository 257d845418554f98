//! The Maven home.

use std::collections::HashSet;

use barista_cli::daemon::maven_home::{
    bundled_maven_home, resolve_maven_home, FsProbe, MavenHomeSource,
};

struct FakeFs {
    dirs: HashSet<String>,
    files: HashSet<String>,
}

impl FakeFs {
    fn new() -> Self {
        Self { dirs: HashSet::new(), files: HashSet::new() }
    }
    fn with_dir(mut self, p: &str) -> Self {
        self.dirs.insert(p.to_string());
        self
    }
    fn with_file(mut self, p: &str) -> Self {
        self.files.insert(p.to_string());
        self
    }
}

impl FsProbe for FakeFs {
    fn is_dir(&self, p: &str) -> bool {
        self.dirs.contains(p)
    }
    fn is_file(&self, p: &str) -> bool {
        self.files.contains(p)
    }
}

const EXE: &str = "/opt/barista/bin/barista";
const MVN_HOME: &str = "/opt/barista/share/barista/maven-4";

fn well_formed() -> FakeFs {
    FakeFs::new()
        .with_dir(MVN_HOME)
        .with_file("/opt/barista/share/barista/maven-4/bin/mvn")
        .with_dir("/opt/barista/share/barista/maven-4/lib")
}

#[test]
fn bundled_home_found_for_well_formed_install() {
    assert_eq!(bundled_maven_home(EXE, &well_formed()), Some(MVN_HOME.to_string()));
}

#[test]
fn bundled_home_accepts_windows_launcher() {
    let fs = FakeFs::new()
        .with_dir(MVN_HOME)
        .with_file("/opt/barista/share/barista/maven-4/bin/mvn.cmd")
        .with_dir("/opt/barista/share/barista/maven-4/lib");
    assert_eq!(bundled_maven_home(EXE, &fs), Some(MVN_HOME.to_string()));
}

#[test]
fn bundled_home_none_when_maven_dir_missing() {
    assert_eq!(bundled_maven_home(EXE, &FakeFs::new()), None);
}

#[test]
fn bundled_home_none_when_launcher_missing() {
    let fs = FakeFs::new()
        .with_dir(MVN_HOME)
        .with_dir("/opt/barista/share/barista/maven-4/lib");
    assert_eq!(bundled_maven_home(EXE, &fs), None);
}

#[test]
fn bundled_home_none_when_lib_missing() {
    let fs = FakeFs::new()
        .with_dir(MVN_HOME)
        .with_file("/opt/barista/share/barista/maven-4/bin/mvn");
    assert_eq!(bundled_maven_home(EXE, &fs), None);
}

#[test]
fn bundled_home_none_when_exe_too_shallow() {
    assert_eq!(bundled_maven_home("/barista", &FakeFs::new()), None);
}

#[test]
fn precedence_override_beats_everything() {
    let resolved = resolve_maven_home(
        Some("/explicit/override".to_string()),
        Some("/from/env".to_string()),
        Some(EXE),
        &well_formed(),
    );
    assert_eq!(resolved.source, MavenHomeSource::Override);
    assert_eq!(resolved.path, Some("/explicit/override".to_string()));
}

#[test]
fn precedence_env_beats_bundled() {
    let resolved =
        resolve_maven_home(None, Some("/from/env".to_string()), Some(EXE), &well_formed());
    assert_eq!(resolved.source, MavenHomeSource::Env);
    assert_eq!(resolved.path, Some("/from/env".to_string()));
}

#[test]
fn precedence_bundled_when_no_override_or_env() {
    let resolved = resolve_maven_home(None, None, Some(EXE), &well_formed());
    assert_eq!(resolved.source, MavenHomeSource::Bundled);
    assert_eq!(resolved.path, Some(MVN_HOME.to_string()));
}

#[test]
fn precedence_none_when_nothing_resolves() {
    let resolved = resolve_maven_home(None, None, Some(EXE), &FakeFs::new());
    assert_eq!(resolved.source, MavenHomeSource::Unresolved);
    assert_eq!(resolved.path, None);
}

#[test]
fn source_labels_are_stable() {
    assert_eq!(MavenHomeSource::Override.label(), "override");
    assert_eq!(MavenHomeSource::Env.label(), "env");
    assert_eq!(MavenHomeSource::Bundled.label(), "bundled");
    assert_eq!(MavenHomeSource::Unresolved.label(), "none");
}
