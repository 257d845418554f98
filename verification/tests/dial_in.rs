//! The configuration wizard.

use barista_cli::cmd::dial_in::{
    default_concurrency, default_output_path, dial_in, next_prompt, render_toml, run, DialInError,
    DialInOpts, Prompter, ScriptedPrompter, StdinPrompter, DEFAULT_MIRROR_URL, MAX_CONCURRENCY,
};

fn lines(ls: &[&str]) -> Vec<String> {
    ls.iter().map(|s| s.to_string()).collect()
}

fn opts(force: bool) -> DialInOpts {
    DialInOpts { output_path: "/home/me/.barista/config.toml".to_string(), force }
}

#[test]
fn default_concurrency_is_clamped() {
    for cores in [None, Some(0), Some(1), Some(16), Some(32), Some(33), Some(4096)] {
        let c = default_concurrency(cores);
        assert!((1..=MAX_CONCURRENCY).contains(&c), "got {c}");
    }
    assert_eq!(default_concurrency(Some(16)), 16);
    assert_eq!(default_concurrency(None), 4);
}

#[test]
fn scripted_prompter_accepts_default_on_empty() {
    let mut p = ScriptedPrompter::new(vec!["".to_string(), "".to_string()]);
    let s = p.ask_text("q", Some("hello")).unwrap();
    assert_eq!(s, "hello");
    let b = p.ask_bool("q", true).unwrap();
    assert!(b);
}

#[test]
fn scripted_prompter_uses_provided_answer() {
    let mut p = ScriptedPrompter::new(vec!["world".to_string()]);
    assert_eq!(p.ask_text("q", Some("hello")).unwrap(), "world");
}

#[test]
fn scripted_prompter_bool_rejects_garbage() {
    let mut p = ScriptedPrompter::new(vec!["maybe".to_string()]);
    let err = p.ask_bool("q", false).unwrap_err();
    assert!(matches!(err, DialInError::BadAnswer { .. }));
    assert_eq!(
        err.to_message(),
        "answer to \"q\" was \"maybe\", but expected one of: y/yes/n/no",
    );
}

#[test]
fn render_toml_emits_network_section() {
    let s = render_toml("https://example.com/m2", false, None, 8, false);
    assert!(s.contains("[network]"));
    assert!(s.contains("max-concurrent-connections = 8"));
    assert!(s.contains("mirror-url"));
}

#[test]
fn render_toml_quotes_what_was_answered() {
    let s = render_toml("a\"b", true, Some("http://r"), 3, true);
    assert!(s.contains("#   mirror-url     = \"a\\\"b\"\n"));
    assert!(s.contains("#   roastery-url   = \"http://r\"\n#   strict-default = true\n"));
    let parsed: toml::Value = toml::from_str(&s).expect("valid TOML");
    assert_eq!(parsed["network"]["max-concurrent-connections"].as_integer(), Some(3));
}

#[test]
fn defaults_are_accepted_everywhere() {
    let mut p = ScriptedPrompter::all_defaults();
    let (report, contents) = dial_in(opts(false), false, 12, &mut p).unwrap();
    assert_eq!(report.mirror_url, DEFAULT_MIRROR_URL);
    assert!(!report.use_roastery);
    assert_eq!(report.roastery_url, None);
    assert_eq!(report.concurrency, 12);
    assert!(!report.strict);
    assert!(contents.contains("max-concurrent-connections = 12\n"));
    let (line, code) = run(&Ok(report), false);
    assert_eq!(code, 0);
    assert_eq!(
        line.unwrap(),
        "dial-in: wrote /home/me/.barista/config.toml (concurrency=12, roastery=no)",
    );
}

#[test]
fn the_roastery_question_has_a_follow_up() {
    let mut p = ScriptedPrompter::new(lines(&["", "yes", "http://r", "99", "true"]));
    let (report, _) = dial_in(opts(false), false, 4, &mut p).unwrap();
    assert_eq!(report.roastery_url, Some("http://r".to_string()));
    assert_eq!(report.concurrency, 32);
    assert!(report.strict);
}

#[test]
fn an_existing_file_is_kept() {
    let mut p = ScriptedPrompter::new(lines(&["x"]));
    let err = dial_in(opts(false), true, 4, &mut p).unwrap_err();
    assert!(matches!(err, DialInError::WouldOverwrite { .. }));
    assert_eq!(p.answers.len(), 1, "nothing was asked");
    assert_eq!(
        err.to_message(),
        "refusing to overwrite existing config at \"/home/me/.barista/config.toml\"; pass --force to clobber it",
    );
    assert!(dial_in(opts(true), true, 4, &mut p).is_ok());
}

#[test]
fn a_number_has_to_be_one() {
    let mut p = ScriptedPrompter::new(lines(&["", "", "many"]));
    let err = dial_in(opts(false), false, 4, &mut p).unwrap_err();
    assert_eq!(
        err.to_message(),
        "answer to \"Parallel-fetch concurrency (1-32)\" (\"many\") is not a valid unsigned integer",
    );
    assert_eq!(run(&Err(err), true).1, 1);
}

#[test]
fn typed_lines_are_trimmed_and_prompts_are_shown() {
    let mut p = StdinPrompter::new(lines(&["  x \n", "YES\n", "\n"]));
    assert_eq!(p.ask_text("Name", Some("d")).unwrap(), "x");
    assert!(p.ask_bool("Sure?", false).unwrap());
    assert_eq!(p.ask_text("Last", None).unwrap(), "");
    assert!(p.ask_bool("End?", true).unwrap());
    assert_eq!(p.shown, "Name [d]: Sure? [y/N]: Last: End? [Y/n]: ");
    let mut q = StdinPrompter::new(lines(&["true\n"]));
    assert!(q.ask_bool("q", false).is_err());
}

#[test]
fn the_default_file_needs_a_home() {
    assert_eq!(default_output_path(Some("/home/me")).unwrap(), "/home/me/.barista/config.toml");
    assert!(matches!(default_output_path(None), Err(DialInError::NoHome)));
    assert_eq!(
        DialInError::Io("closed".to_string()).to_message(),
        "I/O while reading or writing answers: closed",
    );
}

/// Fails at one question, and remembers how many were asked.
struct Failing {
    asked: usize,
    at: usize,
}

impl Failing {
    fn step(&mut self) -> Result<(), DialInError> {
        self.asked += 1;
        if self.asked > self.at {
            Err(DialInError::Io(format!("closed at {}", self.asked)))
        } else {
            Ok(())
        }
    }
}

impl Prompter for Failing {
    fn ask_text(&mut self, _question: &str, default: Option<&str>) -> Result<String, DialInError> {
        self.step()?;
        Ok(default.unwrap_or("x").to_string())
    }

    fn ask_bool(&mut self, _question: &str, _default: bool) -> Result<bool, DialInError> {
        self.step()?;
        Ok(true)
    }
}

#[test]
fn the_first_question_that_fails_is_the_last() {
    for at in 0..5 {
        let mut p = Failing { asked: 0, at };
        let err = dial_in(opts(false), false, 4, &mut p).unwrap_err();
        assert_eq!(
            err.to_message(),
            format!("I/O while reading or writing answers: closed at {}", at + 1),
        );
        assert_eq!(p.asked, at + 1);
    }
    let mut p = Failing { asked: 0, at: 5 };
    assert!(dial_in(opts(false), false, 4, &mut p).is_ok());
    assert_eq!(p.asked, 5);
    let mut p = Failing { asked: 0, at: 0 };
    let err = dial_in(opts(false), true, 4, &mut p).unwrap_err();
    assert!(matches!(err, DialInError::WouldOverwrite { .. }));
    assert_eq!(p.asked, 0);
}

#[test]
fn prompts_follow_what_was_typed() {
    let next = |typed: &[&str]| next_prompt(&opts(false), false, 4, &lines(typed));
    assert!(next(&[]).unwrap().ends_with(&format!(" [{DEFAULT_MIRROR_URL}]: ")));
    assert!(next(&["\n"]).unwrap().ends_with(" [y/N]: "));
    assert!(next(&["\n", "y\n"]).unwrap().contains("URL"));
    assert!(next(&["\n", "n\n"]).unwrap().ends_with(" [4]: "));
    assert_eq!(next(&["\n", "\n"]), next(&["\n", "y\n", "http://r\n"]));
    assert_eq!(next(&["\n", "perhaps\n"]), None);
    assert_eq!(next_prompt(&opts(false), true, 4, &lines(&[])), None);
    assert_eq!(next_prompt(&opts(true), true, 4, &lines(&[])), next(&[]));
}

#[test]
fn the_lines_behind_the_prompts_are_the_answers() {
    let answers = ["\n", "y\n", "http://r\n", "8\n", "y\n"];
    let mut typed: Vec<String> = vec![];
    let mut shown = String::new();
    while let Some(prompt) = next_prompt(&opts(false), false, 4, &typed) {
        shown.push_str(&prompt);
        typed.push(answers[typed.len()].to_string());
    }
    assert_eq!(typed.len(), answers.len());
    let mut p = StdinPrompter::new(typed);
    let (report, _) = dial_in(opts(false), false, 4, &mut p).unwrap();
    assert_eq!(p.shown, shown);
    assert_eq!(report.concurrency, 8);
    assert_eq!(report.roastery_url, Some("http://r".to_string()));
    assert!(report.strict);
}

/// Gives up with an error of its own.
struct Absent;

impl Prompter for Absent {
    fn ask_text(&mut self, _question: &str, _default: Option<&str>) -> Result<String, DialInError> {
        Err(DialInError::NoHome)
    }

    fn ask_bool(&mut self, _question: &str, default: bool) -> Result<bool, DialInError> {
        Ok(default)
    }
}

#[test]
fn the_error_of_a_prompter_is_handed_on() {
    let err = dial_in(opts(false), false, 4, &mut Absent).unwrap_err();
    assert!(matches!(err, DialInError::NoHome));
}
