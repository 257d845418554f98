//! Project roots.

use std::collections::HashMap;

use barista_cli::facts::{Facts, Lookup, PathKind, ReadOutcome};
use barista_cli::project::{
    record_sticky, resolve_project_root, ProjectRoot, ResolveError, ResolveInputs, RootSource,
};

/// A file tree: directories hold no text.
#[derive(Default)]
struct Tree {
    entries: HashMap<String, Option<String>>,
}

impl Tree {
    fn dir(mut self, p: &str) -> Self {
        self.entries.insert(p.to_string(), None);
        self
    }
    fn file(mut self, p: &str, text: &str) -> Self {
        self.entries.insert(p.to_string(), Some(text.to_string()));
        self
    }
    fn pom(self, dir: &str) -> Self {
        let p = format!("{dir}/pom.xml");
        self.dir(dir).file(&p, "<project/>")
    }
    fn git(self, dir: &str) -> Self {
        let p = format!("{dir}/.git");
        self.dir(dir).dir(&p)
    }
    fn sticky(self, root: &str, home: &str) -> Self {
        let w = record_sticky(root, Some(home), None).unwrap();
        self.dir(&w.run_dir).file(&w.path, &w.contents)
    }
    fn kind(&self, p: &str) -> PathKind {
        match self.entries.get(p) {
            None => PathKind::Missing,
            Some(None) => PathKind::Dir,
            Some(Some(_)) => PathKind::File,
        }
    }
    fn read(&self, p: &str) -> ReadOutcome {
        match self.entries.get(p) {
            Some(Some(t)) => ReadOutcome::Text(t.clone()),
            Some(None) => ReadOutcome::Failed("is a directory".to_string()),
            None => ReadOutcome::NotFound,
        }
    }
    fn resolve(&self, inputs: ResolveInputs) -> Result<ProjectRoot, ResolveError> {
        let mut facts = Facts::new();
        for _ in 0..64 {
            match resolve_project_root(&inputs, &facts) {
                Lookup::Known(r) => return r,
                Lookup::NeedKind(p) => {
                    let k = self.kind(&p);
                    facts.record_kind(p, k);
                }
                Lookup::NeedText(p) => {
                    let t = self.read(&p);
                    facts.record_read(p, t);
                }
            }
        }
        panic!("the same fact was asked for again and again")
    }
}

fn inputs() -> ResolveInputs {
    ResolveInputs {
        root: None,
        file: None,
        cwd_override: None,
        home_override: None,
        skip_sticky: false,
        process_cwd: Ok("/proc-cwd".to_string()),
        process_home: None,
    }
}

fn s(x: &str) -> Option<String> {
    Some(x.to_string())
}

#[test]
fn root_with_pom_is_explicit_root() {
    let out = Tree::default()
        .pom("/td")
        .resolve(ResolveInputs { root: s("/td"), skip_sticky: true, ..inputs() })
        .unwrap();
    assert_eq!(out.root, "/td");
    assert_eq!(out.pom, "/td/pom.xml");
    assert_eq!(out.source, RootSource::ExplicitRoot);
}

#[test]
fn root_without_pom_errors() {
    let err = Tree::default()
        .dir("/td")
        .resolve(ResolveInputs { root: s("/td"), skip_sticky: true, ..inputs() })
        .unwrap_err();
    assert!(matches!(err, ResolveError::RootMissingPom { .. }));
}

#[test]
fn root_not_a_directory_errors() {
    let err = Tree::default()
        .file("/td/not-a-dir", "hi")
        .resolve(ResolveInputs { root: s("/td/not-a-dir"), skip_sticky: true, ..inputs() })
        .unwrap_err();
    assert!(matches!(err, ResolveError::RootNotDirectory { .. }));
}

#[test]
fn file_pointing_at_pom_xml_is_explicit_file() {
    let out = Tree::default()
        .pom("/td")
        .resolve(ResolveInputs { file: s("/td/pom.xml"), skip_sticky: true, ..inputs() })
        .unwrap();
    assert_eq!(out.pom, "/td/pom.xml");
    assert_eq!(out.root, "/td");
    assert_eq!(out.source, RootSource::ExplicitFile);
}

#[test]
fn file_pointing_at_dir_with_pom_is_explicit_file() {
    let out = Tree::default()
        .pom("/td")
        .resolve(ResolveInputs { file: s("/td"), skip_sticky: true, ..inputs() })
        .unwrap();
    assert_eq!(out.root, "/td");
    assert_eq!(out.source, RootSource::ExplicitFile);
}

#[test]
fn file_missing_errors() {
    let err = Tree::default()
        .dir("/td")
        .resolve(ResolveInputs { file: s("/td/nope.xml"), skip_sticky: true, ..inputs() })
        .unwrap_err();
    assert!(matches!(err, ResolveError::FileMissing { .. }));
}

#[test]
fn file_pointing_at_dir_without_pom_errors() {
    let err = Tree::default()
        .dir("/td")
        .resolve(ResolveInputs { file: s("/td"), skip_sticky: true, ..inputs() })
        .unwrap_err();
    assert!(matches!(err, ResolveError::RootMissingPom { .. }));
}

#[test]
fn walk_up_from_nested_cwd_finds_pom() {
    let out = Tree::default()
        .pom("/td")
        .git("/td")
        .resolve(ResolveInputs {
            cwd_override: s("/td/a/b/c"),
            home_override: s("/td/no-home"),
            skip_sticky: true,
            ..inputs()
        })
        .unwrap();
    assert_eq!(out.root, "/td");
    assert_eq!(out.source, RootSource::WalkUp);
}

#[test]
fn walk_up_stops_at_git_boundary() {
    let err = Tree::default()
        .pom("/td")
        .git("/td/inner")
        .resolve(ResolveInputs {
            cwd_override: s("/td/inner/sub"),
            home_override: s("/td/no-home"),
            skip_sticky: true,
            ..inputs()
        })
        .unwrap_err();
    assert!(matches!(err, ResolveError::NoPomFound { .. }));
}

#[test]
fn walk_up_no_pom_errors() {
    let err = Tree::default()
        .git("/td")
        .resolve(ResolveInputs {
            cwd_override: s("/td/x/y"),
            home_override: s("/td/no-home"),
            skip_sticky: true,
            ..inputs()
        })
        .unwrap_err();
    assert!(matches!(err, ResolveError::NoPomFound { .. }));
}

#[test]
fn sticky_fallback_returns_recorded_root() {
    let out = Tree::default()
        .pom("/td/proj")
        .sticky("/td/proj", "/td/home")
        .git("/td/cwd")
        .resolve(ResolveInputs {
            cwd_override: s("/td/cwd"),
            home_override: s("/td/home"),
            ..inputs()
        })
        .unwrap();
    assert_eq!(out.root, "/td/proj");
    assert_eq!(out.source, RootSource::Sticky);
}

#[test]
fn sticky_skipped_when_skip_sticky_set() {
    let err = Tree::default()
        .pom("/td/proj")
        .sticky("/td/proj", "/td/home")
        .git("/td/cwd")
        .resolve(ResolveInputs {
            cwd_override: s("/td/cwd"),
            home_override: s("/td/home"),
            skip_sticky: true,
            ..inputs()
        })
        .unwrap_err();
    assert!(matches!(err, ResolveError::NoPomFound { .. }));
}

#[test]
fn sticky_pointing_at_deleted_dir_falls_through() {
    let err = Tree::default()
        .sticky("/td/proj", "/td/home")
        .git("/td/cwd")
        .resolve(ResolveInputs {
            cwd_override: s("/td/cwd"),
            home_override: s("/td/home"),
            ..inputs()
        })
        .unwrap_err();
    assert!(matches!(err, ResolveError::NoPomFound { .. }));
}

#[test]
fn root_wins_over_file() {
    let out = Tree::default()
        .pom("/td/r")
        .pom("/td/o")
        .resolve(ResolveInputs {
            root: s("/td/r"),
            file: s("/td/o/pom.xml"),
            skip_sticky: true,
            ..inputs()
        })
        .unwrap();
    assert_eq!(out.root, "/td/r");
    assert_eq!(out.source, RootSource::ExplicitRoot);
}

#[test]
fn root_wins_over_walk_up_and_sticky() {
    let out = Tree::default()
        .pom("/td/walk")
        .git("/td/walk")
        .pom("/td/sticky")
        .pom("/td/explicit")
        .sticky("/td/sticky", "/td/home")
        .resolve(ResolveInputs {
            root: s("/td/explicit"),
            cwd_override: s("/td/walk"),
            home_override: s("/td/home"),
            ..inputs()
        })
        .unwrap();
    assert_eq!(out.root, "/td/explicit");
    assert_eq!(out.source, RootSource::ExplicitRoot);
}

#[test]
fn relative_root_resolves_against_cwd() {
    let out = Tree::default()
        .pom("/td/proj")
        .resolve(ResolveInputs {
            root: s("proj"),
            cwd_override: s("/td"),
            home_override: s("/td/no-home"),
            skip_sticky: true,
            ..inputs()
        })
        .unwrap();
    assert_eq!(out.root, "/td/proj");
}

#[test]
fn record_sticky_creates_parent_dirs() {
    let w = record_sticky("/td/proj", Some("/td/fresh-home"), None).unwrap();
    assert_eq!(w.run_dir, "/td/fresh-home/.barista/run");
    assert_eq!(w.path, "/td/fresh-home/.barista/run/last-project");
    assert_eq!(w.contents.trim(), "/td/proj");
}

#[test]
fn record_sticky_overwrites_idempotently() {
    let a = record_sticky("/td/a", Some("/td/home"), None).unwrap();
    let b = record_sticky("/td/b", Some("/td/home"), None).unwrap();
    assert_eq!(a.path, b.path);
    assert_eq!(b.contents.trim(), "/td/b");
}

#[test]
fn walk_up_finds_pom_when_git_lives_in_same_dir() {
    let out = Tree::default()
        .pom("/td")
        .git("/td")
        .resolve(ResolveInputs {
            cwd_override: s("/td"),
            home_override: s("/td/no-home"),
            skip_sticky: true,
            ..inputs()
        })
        .unwrap();
    assert_eq!(out.root, "/td");
    assert_eq!(out.source, RootSource::WalkUp);
}

#[test]
fn a_missing_home_cannot_hold_a_record() {
    assert!(matches!(record_sticky("/p", None, None), Err(ResolveError::NoHome)));
}

#[test]
fn error_messages_quote_the_path() {
    let err = Tree::default()
        .dir("/td")
        .resolve(ResolveInputs { file: s("/td/nope.xml"), skip_sticky: true, ..inputs() })
        .unwrap_err();
    assert!(err.to_message().contains("\"/td/nope.xml\""), "{}", err.to_message());
}
