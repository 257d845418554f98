//! `barista dial-in`: the configuration wizard.

use vstd::prelude::*;
use vstd::string::*;

use crate::paths;
use crate::text;

verus! {

/// The mirror that is suggested.
pub const DEFAULT_MIRROR_URL: &'static str = "https://repo.maven.apache.org/maven2";

/// The largest number of parallel fetches.
pub const MAX_CONCURRENCY: u32 = 32;

pub const PROMPT_MIRROR_URL: &'static str = "Default Maven mirror URL";

pub const PROMPT_USE_ROASTERY: &'static str = "Use a roastery cache for shared artifact storage?";

pub const PROMPT_ROASTERY_URL: &'static str = "  Roastery URL";

pub const PROMPT_CONCURRENCY: &'static str = "Parallel-fetch concurrency (1-32)";

pub const PROMPT_STRICT: &'static str = "Enable strict resolution by default?";

/// What a yes/no question accepts.
pub const YES_NO: &'static str = "y/yes/n/no";

/// What a number is called.
pub const NUMBER_KIND: &'static str = "unsigned integer";

// ---------------------------------------------------------------------------
// Errors
// ---------------------------------------------------------------------------

/// Why the wizard failed.
#[derive(Debug)]
pub enum DialInError {
    Io(String),
    WouldOverwrite { path: String },
    NoHome,
    BadAnswer { question: String, value: String, expected: String },
    InvalidNumber { question: String, value: String, kind: String },
}

/// A failure, by contents.
pub enum DialInFault {
    Io(Seq<char>),
    WouldOverwrite { path: Seq<char> },
    NoHome,
    BadAnswer { question: Seq<char>, value: Seq<char>, expected: Seq<char> },
    InvalidNumber { question: Seq<char>, value: Seq<char>, kind: Seq<char> },
}

impl View for DialInError {
    type V = DialInFault;

    open spec fn view(&self) -> DialInFault {
        match self {
            DialInError::Io(d) => DialInFault::Io(d@),
            DialInError::WouldOverwrite { path } => DialInFault::WouldOverwrite { path: path@ },
            DialInError::NoHome => DialInFault::NoHome,
            DialInError::BadAnswer { question, value, expected } => DialInFault::BadAnswer {
                question: question@,
                value: value@,
                expected: expected@,
            },
            DialInError::InvalidNumber { question, value, kind } => DialInFault::InvalidNumber {
                question: question@,
                value: value@,
                kind: kind@,
            },
        }
    }
}

/// The message of a failure.
pub open spec fn fault_text(e: DialInFault) -> Seq<char> {
    match e {
        DialInFault::Io(d) => "I/O while reading or writing answers: "@ + d,
        DialInFault::WouldOverwrite { path } => "refusing to overwrite existing config at "@
            + text::quoted_path_text(path) + "; pass --force to clobber it"@,
        DialInFault::NoHome =>
            "could not resolve HOME (set $HOME or pass --output <PATH> to choose an explicit destination)"@,
        DialInFault::BadAnswer { question, value, expected } => "answer to "@ + text::quoted_text(
            question,
        ) + " was "@ + text::quoted_text(value) + ", but expected one of: "@ + expected,
        DialInFault::InvalidNumber { question, value, kind } => "answer to "@ + text::quoted_text(
            question,
        ) + " ("@ + text::quoted_text(value) + ") is not a valid "@ + kind,
    }
}

impl DialInError {
    /// The message of this error.
    pub fn to_message(&self) -> (r: String)
        ensures
            r@ == fault_text(self@),
    {
        match self {
            DialInError::Io(d) => text::two("I/O while reading or writing answers: ", d.as_str()),
            DialInError::WouldOverwrite { path } => {
                let mut s = text::two(
                    "refusing to overwrite existing config at ",
                    text::quoted_path(path.as_str()).as_str(),
                );
                s.append("; pass --force to clobber it");
                s
            },
            DialInError::NoHome => {
                "could not resolve HOME (set $HOME or pass --output <PATH> to choose an explicit destination)".to_owned()
            },
            DialInError::BadAnswer { question, value, expected } => {
                let mut s = text::four(
                    "answer to ",
                    text::quoted(question.as_str()).as_str(),
                    " was ",
                    text::quoted(value.as_str()).as_str(),
                );
                s.append(", but expected one of: ");
                s.append(expected.as_str());
                s
            },
            DialInError::InvalidNumber { question, value, kind } => {
                let mut s = text::four(
                    "answer to ",
                    text::quoted(question.as_str()).as_str(),
                    " (",
                    text::quoted(value.as_str()).as_str(),
                );
                s.append(") is not a valid ");
                s.append(kind.as_str());
                s
            },
        }
    }
}

// ---------------------------------------------------------------------------
// Answers
// ---------------------------------------------------------------------------

/// The word of a yes/no answer.
pub open spec fn word(line: Seq<char>) -> Seq<char> {
    text::lowered(text::trimmed(line))
}

/// What a yes/no answer says; `long` forms are `true` and `false`.
pub open spec fn yes_no(w: Seq<char>, long: bool) -> Option<bool> {
    if w == "y"@ || w == "yes"@ || (long && w == "true"@) {
        Some(true)
    } else if w == "n"@ || w == "no"@ || (long && w == "false"@) {
        Some(false)
    } else {
        None
    }
}

/// The default, or nothing.
pub open spec fn or_nothing(default: Option<&str>) -> Seq<char> {
    match default {
        Some(d) => d@,
        None => Seq::empty(),
    }
}

/// The answer that a line gives: nothing, or nothing but an empty text, means the default.
pub open spec fn text_reply(line: Option<Seq<char>>, default: Seq<char>) -> Seq<char> {
    match line {
        Some(l) => if l.len() == 0 {
            default
        } else {
            l
        },
        None => default,
    }
}

/// The answer that a line gives to a yes/no question.
pub open spec fn bool_reply(
    line: Option<Seq<char>>,
    question: Seq<char>,
    default: bool,
    long: bool,
) -> Result<bool, DialInFault> {
    match line {
        Some(l) => if word(l).len() == 0 {
            Ok(default)
        } else {
            match yes_no(word(l), long) {
                Some(b) => Ok(b),
                None => Err(
                    DialInFault::BadAnswer { question, value: word(l), expected: YES_NO@ },
                ),
            }
        },
        None => Ok(default),
    }
}

/// The answer that a line gives.
pub fn text_answer(line: Option<String>, default: Option<&str>) -> (r: String)
    ensures
        r@ == text_reply(text::opt_text(line), or_nothing(default)),
{
    match line {
        Some(l) => {
            if l.as_str().unicode_len() > 0 {
                return l;
            }
        },
        None => {},
    }
    match default {
        Some(d) => d.to_owned(),
        None => {
            let s = String::new();
            assert(s@ =~= Seq::empty());
            s
        },
    }
}

/// The answer that a line gives to a yes/no question.
pub fn bool_answer(line: Option<String>, question: &str, default: bool, long: bool) -> (r: Result<
    bool,
    DialInError,
>)
    ensures
        match r {
            Ok(b) => bool_reply(text::opt_text(line), question@, default, long) == Ok::<
                bool,
                DialInFault,
            >(b),
            Err(e) => bool_reply(text::opt_text(line), question@, default, long) == Err::<
                bool,
                DialInFault,
            >(e@),
        },
{
    match line {
        None => Ok(default),
        Some(l) => {
            let w = text::lower(text::trim(l.as_str()).as_str());
            if w.as_str().unicode_len() == 0 {
                return Ok(default);
            }
            if text::same_text(w.as_str(), "y") || text::same_text(w.as_str(), "yes") || (long
                && text::same_text(w.as_str(), "true")) {
                return Ok(true);
            }
            if text::same_text(w.as_str(), "n") || text::same_text(w.as_str(), "no") || (long
                && text::same_text(w.as_str(), "false")) {
                return Ok(false);
            }
            Err(
                DialInError::BadAnswer {
                    question: question.to_owned(),
                    value: w,
                    expected: YES_NO.to_owned(),
                },
            )
        },
    }
}

/// The first of the lines to come.
pub open spec fn next_line(lines: Seq<Seq<char>>) -> Option<Seq<char>> {
    if lines.len() > 0 {
        Some(lines[0])
    } else {
        None
    }
}

/// The lines after the first one.
pub open spec fn later(lines: Seq<Seq<char>>) -> Seq<Seq<char>> {
    if lines.len() > 0 {
        lines.skip(1)
    } else {
        lines
    }
}

/// A question, with the answer that counts where none is given.
pub enum Asked {
    Text { question: Seq<char>, default: Option<Seq<char>> },
    YesNo { question: Seq<char>, yes: bool },
}

/// What was asked so far, in its order, and what the last question failed with.
pub struct Dialogue {
    pub asked: Seq<Asked>,
    pub trouble: Option<DialInFault>,
}

/// A question for a text.
pub open spec fn text_question(question: Seq<char>, default: Option<&str>) -> Asked {
    Asked::Text {
        question,
        default: match default {
            Some(d) => Some(d@),
            None => None,
        },
    }
}

impl Dialogue {
    /// What was asked after one more question, and how that one ended.
    pub open spec fn after<T>(self, q: Asked, r: Result<T, DialInError>) -> Dialogue {
        Dialogue {
            asked: self.asked.push(q),
            trouble: match r {
                Ok(_) => None,
                Err(e) => Some(e@),
            },
        }
    }
}

/// A dialogue that has not begun.
pub open spec fn unasked() -> Dialogue {
    Dialogue { asked: Seq::empty(), trouble: None }
}

/// Asks questions. Every question takes one of the lines to come; where none is left, the
/// default is taken. A prompter that is not verified need not say what its spec functions are.
pub trait Prompter {
    /// The lines to come.
    closed spec fn lines(&self) -> Seq<Seq<char>> {
        vstd::pervasive::arbitrary()
    }

    /// Whether the lines can be read without fail. One that cannot may fail with any error.
    closed spec fn reliable(&self) -> bool {
        vstd::pervasive::arbitrary()
    }

    /// What was asked so far.
    closed spec fn dialogue(&self) -> Dialogue {
        vstd::pervasive::arbitrary()
    }

    /// What a line says, as text.
    closed spec fn reads(line: Seq<char>) -> Seq<char> {
        vstd::pervasive::arbitrary()
    }

    /// Whether `true` and `false` answer a yes/no question.
    closed spec fn takes_long_forms() -> bool {
        vstd::pervasive::arbitrary()
    }

    /// Asks for a text.
    fn ask_text(&mut self, question: &str, default: Option<&str>) -> (r: Result<
        String,
        DialInError,
    >)
        ensures
            final(self).reliable() == old(self).reliable(),
            final(self).dialogue() == old(self).dialogue().after(
                text_question(question@, default),
                r,
            ),
            match r {
                Ok(s) => final(self).lines() == later(old(self).lines()) && s@ == text_reply(
                    (match next_line(old(self).lines()) {
                        Some(l) => Some(Self::reads(l)),
                        None => None,
                    }),
                    or_nothing(default),
                ),
                Err(_) => !old(self).reliable(),
            },
    ;

    /// Asks a yes/no question.
    fn ask_bool(&mut self, question: &str, default: bool) -> (r: Result<bool, DialInError>)
        ensures
            final(self).reliable() == old(self).reliable(),
            final(self).dialogue() == old(self).dialogue().after(
                (Asked::YesNo { question: question@, yes: default }),
                r,
            ),
            r is Ok || old(self).reliable() ==> final(self).lines() == later(old(self).lines()),
            match r {
                Ok(b) => bool_reply(
                    next_line(old(self).lines()),
                    question@,
                    default,
                    Self::takes_long_forms(),
                ) == Ok::<bool, DialInFault>(b),
                Err(e) => old(self).reliable() ==> bool_reply(
                    next_line(old(self).lines()),
                    question@,
                    default,
                    Self::takes_long_forms(),
                ) == Err::<bool, DialInFault>(e@),
            },
    ;
}

/// What the first of the lines to come says, as text.
pub open spec fn line_read<P: Prompter>(lines: Seq<Seq<char>>) -> Option<Seq<char>> {
    match next_line(lines) {
        Some(l) => Some(P::reads(l)),
        None => None,
    }
}

/// Takes the first line of a list.
fn take_line(lines: &mut Vec<String>) -> (r: Option<String>)
    ensures
        text::opt_text(r) == next_line(text::texts(old(lines)@)),
        text::texts(final(lines)@) == later(text::texts(old(lines)@)),
{
    if lines.len() == 0 {
        return None;
    }
    let first = lines.remove(0);
    assert(text::texts(lines@) =~= text::texts(old(lines)@).skip(1));
    Some(first)
}

/// Answers from a list. A text counts as it stands.
pub struct ScriptedPrompter {
    pub answers: Vec<String>,
    /// What was asked so far.
    pub told: Ghost<Dialogue>,
}

impl ScriptedPrompter {
    /// Answers with these texts, one after the other.
    pub fn new(answers: Vec<String>) -> (r: ScriptedPrompter)
        ensures
            r.lines() == text::texts(answers@),
            r.dialogue() == unasked(),
    {
        ScriptedPrompter { answers, told: Ghost(unasked()) }
    }

    /// Takes the default for every answer.
    pub fn all_defaults() -> (r: ScriptedPrompter)
        ensures
            r.lines() == Seq::<Seq<char>>::empty(),
            r.dialogue() == unasked(),
    {
        ScriptedPrompter { answers: Vec::new(), told: Ghost(unasked()) }
    }
}

impl Prompter for ScriptedPrompter {
    open spec fn lines(&self) -> Seq<Seq<char>> {
        text::texts(self.answers@)
    }

    open spec fn reliable(&self) -> bool {
        true
    }

    open spec fn dialogue(&self) -> Dialogue {
        self.told@
    }

    open spec fn reads(line: Seq<char>) -> Seq<char> {
        line
    }

    open spec fn takes_long_forms() -> bool {
        true
    }

    fn ask_text(&mut self, question: &str, default: Option<&str>) -> (r: Result<
        String,
        DialInError,
    >) {
        let line = take_line(&mut self.answers);
        let r = Ok(text_answer(line, default));
        proof {
            self.told@ = self.told@.after(text_question(question@, default), r);
        }
        r
    }

    fn ask_bool(&mut self, question: &str, default: bool) -> (r: Result<bool, DialInError>) {
        let line = take_line(&mut self.answers);
        let r = bool_answer(line, question, default, true);
        proof {
            self.told@ = self.told@.after(Asked::YesNo { question: question@, yes: default }, r);
        }
        r
    }
}

/// Answers from lines that were typed in. Blanks around a text do not count.
pub struct StdinPrompter {
    pub typed: Vec<String>,
    /// The questions so far, as they are shown.
    pub shown: String,
    /// What was asked so far.
    pub told: Ghost<Dialogue>,
}

/// A question for a text, as it is shown.
pub open spec fn text_prompt(question: Seq<char>, default: Option<&str>) -> Seq<char> {
    match default {
        Some(d) => question + " ["@ + d@ + "]: "@,
        None => question + ": "@,
    }
}

/// A yes/no question, as it is shown.
pub open spec fn bool_prompt(question: Seq<char>, default: bool) -> Seq<char> {
    question + " ["@ + (if default {
        "Y/n"@
    } else {
        "y/N"@
    }) + "]: "@
}

/// A question for a text, as it is shown.
pub fn show_text_prompt(question: &str, default: Option<&str>) -> (r: String)
    ensures
        r@ == text_prompt(question@, default),
{
    match default {
        Some(d) => text::four(question, " [", d, "]: "),
        None => text::two(question, ": "),
    }
}

/// A yes/no question, as it is shown.
pub fn show_bool_prompt(question: &str, default: bool) -> (r: String)
    ensures
        r@ == bool_prompt(question@, default),
{
    let hint = if default {
        "Y/n"
    } else {
        "y/N"
    };
    text::four(question, " [", hint, "]: ")
}

impl StdinPrompter {
    /// Answers with these lines, one after the other.
    pub fn new(typed: Vec<String>) -> (r: StdinPrompter)
        ensures
            r.lines() == text::texts(typed@),
            r.shown@ == Seq::<char>::empty(),
            r.dialogue() == unasked(),
    {
        StdinPrompter { typed, shown: String::new(), told: Ghost(unasked()) }
    }
}

/// A typed line as an answer: without the blanks around it.
pub fn typed_answer(line: Option<String>) -> (r: Option<String>)
    ensures
        text::opt_text(r) == (match line {
            Some(l) => Some(text::trimmed(l@)),
            None => None,
        }),
{
    match line {
        Some(l) => Some(text::trim(l.as_str())),
        None => None,
    }
}

impl Prompter for StdinPrompter {
    open spec fn lines(&self) -> Seq<Seq<char>> {
        text::texts(self.typed@)
    }

    open spec fn reliable(&self) -> bool {
        true
    }

    open spec fn dialogue(&self) -> Dialogue {
        self.told@
    }

    open spec fn reads(line: Seq<char>) -> Seq<char> {
        text::trimmed(line)
    }

    open spec fn takes_long_forms() -> bool {
        false
    }

    fn ask_text(&mut self, question: &str, default: Option<&str>) -> (r: Result<
        String,
        DialInError,
    >)
        ensures
            final(self).shown@ == old(self).shown@ + text_prompt(question@, default),
    {
        let prompt = show_text_prompt(question, default);
        self.shown.append(prompt.as_str());
        let line = typed_answer(take_line(&mut self.typed));
        let r = Ok(text_answer(line, default));
        proof {
            self.told@ = self.told@.after(text_question(question@, default), r);
        }
        r
    }

    fn ask_bool(&mut self, question: &str, default: bool) -> (r: Result<bool, DialInError>)
        ensures
            final(self).shown@ == old(self).shown@ + bool_prompt(question@, default),
    {
        let prompt = show_bool_prompt(question, default);
        self.shown.append(prompt.as_str());
        let line = take_line(&mut self.typed);
        let r = bool_answer(line, question, default, false);
        proof {
            self.told@ = self.told@.after(Asked::YesNo { question: question@, yes: default }, r);
        }
        r
    }
}

// ---------------------------------------------------------------------------
// The wizard
// ---------------------------------------------------------------------------

/// `n`, but at least 1 and at most [`MAX_CONCURRENCY`].
pub open spec fn clamped(n: nat) -> nat {
    if n < 1 {
        1
    } else if n > MAX_CONCURRENCY {
        MAX_CONCURRENCY as nat
    } else {
        n
    }
}

/// `n`, but at least 1 and at most [`MAX_CONCURRENCY`].
fn clamp(n: u32) -> (r: u32)
    ensures
        r == clamped(n as nat),
{
    if n < 1 {
        1
    } else if n > MAX_CONCURRENCY {
        MAX_CONCURRENCY
    } else {
        n
    }
}

/// The suggested number of parallel fetches: the number of cores, where it is known.
pub fn default_concurrency(cores: Option<u32>) -> (r: u32)
    ensures
        r == clamped(
            (match cores {
                Some(n) => n as nat,
                None => 4,
            }),
        ),
        1 <= r <= MAX_CONCURRENCY,
{
    match cores {
        Some(n) => clamp(n),
        None => 4,
    }
}

/// What the wizard is asked for.
#[derive(Debug)]
pub struct DialInOpts {
    pub output_path: String,
    pub force: bool,
}

/// What was answered.
#[derive(Debug)]
pub struct DialInReport {
    pub output_path: String,
    pub mirror_url: String,
    pub use_roastery: bool,
    pub roastery_url: Option<String>,
    pub concurrency: u32,
    pub strict: bool,
}

/// What was answered, by contents.
pub struct Answers {
    pub mirror_url: Seq<char>,
    pub use_roastery: bool,
    pub roastery_url: Option<Seq<char>>,
    pub concurrency: nat,
    pub strict: bool,
}

/// A text, or nothing where it is empty.
pub open spec fn unless_empty(s: Seq<char>) -> Option<Seq<char>> {
    if s.len() == 0 {
        None
    } else {
        Some(s)
    }
}

/// What the wizard makes of the lines after the questions about the roastery.
pub open spec fn last_answers<P: Prompter>(
    lines: Seq<Seq<char>>,
    suggested: nat,
    mirror_url: Seq<char>,
    use_roastery: bool,
    roastery_url: Option<Seq<char>>,
) -> Result<Answers, DialInFault> {
    let raw = text_reply(line_read::<P>(lines), text::dec(suggested));
    match text::unsigned_value(raw, u32::MAX as nat) {
        None => Err(
            DialInFault::InvalidNumber {
                question: PROMPT_CONCURRENCY@,
                value: raw,
                kind: NUMBER_KIND@,
            },
        ),
        Some(n) => match bool_reply(
            next_line(later(lines)),
            PROMPT_STRICT@,
            false,
            P::takes_long_forms(),
        ) {
            Err(e) => Err(e),
            Ok(strict) => Ok(
                Answers {
                    mirror_url,
                    use_roastery,
                    roastery_url,
                    concurrency: clamped(n),
                    strict,
                },
            ),
        },
    }
}

/// What the wizard makes of the lines: the mirror, the roastery and, where there is one, its
/// URL, the number of parallel fetches, the strict mode. The first answer that does not fit
/// ends it.
pub open spec fn wizard<P: Prompter>(lines: Seq<Seq<char>>, suggested: nat) -> Result<
    Answers,
    DialInFault,
> {
    let mirror_url = text_reply(line_read::<P>(lines), DEFAULT_MIRROR_URL@);
    let rest = later(lines);
    match bool_reply(next_line(rest), PROMPT_USE_ROASTERY@, false, P::takes_long_forms()) {
        Err(e) => Err(e),
        Ok(use_roastery) => if use_roastery {
            last_answers::<P>(
                later(later(rest)),
                suggested,
                mirror_url,
                true,
                unless_empty(text_reply(line_read::<P>(later(rest)), Seq::empty())),
            )
        } else {
            last_answers::<P>(later(rest), suggested, mirror_url, false, None)
        },
    }
}

/// Whether a report holds these answers.
pub open spec fn holds(r: DialInReport, a: Answers) -> bool {
    &&& r.mirror_url@ == a.mirror_url
    &&& r.use_roastery == a.use_roastery
    &&& text::opt_text(r.roastery_url) == a.roastery_url
    &&& r.concurrency == a.concurrency
    &&& r.strict == a.strict
}

/// The configuration that holds these answers.
pub open spec fn config_text(a: Answers) -> Seq<char> {
    "# barista user config — generated by `barista dial-in`.\n#\n# This is the user-level layer (~/.barista/config.toml). It is merged with\n# project-level barista.toml, ~/.m2/settings.xml, BARISTA_* env vars, and CLI\n# flags by `barista-config`. Anything below can be overridden per-project.\n#\n# Onboarding answers:\n#   mirror-url     = "@
        + text::quoted_text(a.mirror_url)
        + "\n#   (Mirrors are honored via ~/.m2/settings.xml; see Maven docs for the\n#   <mirrors> block. dial-in records your choice here for reference.)\n#   use-roastery   = "@
        + text::bool_text(a.use_roastery) + "\n"@ + (match a.roastery_url {
        Some(u) => "#   roastery-url   = "@ + text::quoted_text(u) + "\n"@,
        None => Seq::empty(),
    }) + "#   strict-default = "@ + text::bool_text(a.strict)
        + "\n\n[network]\nmax-concurrent-connections = "@ + text::dec(a.concurrency) + "\n"@
}

/// The configuration that holds these answers. Each text that was answered stands in a
/// comment and stays on its line.
pub fn render_toml(
    mirror_url: &str,
    use_roastery: bool,
    roastery_url: Option<&str>,
    concurrency: u32,
    strict: bool,
) -> (r: String)
    ensures
        r@ == config_text(
            (Answers {
                mirror_url: mirror_url@,
                use_roastery,
                roastery_url: (match roastery_url {
                    Some(u) => Some(u@),
                    None => None,
                }),
                concurrency: concurrency as nat,
                strict,
            }),
        ),
        !text::quoted_text(mirror_url@).contains('\n'),
        roastery_url matches Some(u) ==> !text::quoted_text(u@).contains('\n'),
        r@.len() > 0,
{
    proof {
        reveal_strlit("\n");
    }
    let mut out =
        "# barista user config — generated by `barista dial-in`.\n#\n# This is the user-level layer (~/.barista/config.toml). It is merged with\n# project-level barista.toml, ~/.m2/settings.xml, BARISTA_* env vars, and CLI\n# flags by `barista-config`. Anything below can be overridden per-project.\n#\n# Onboarding answers:\n#   mirror-url     = ".to_owned();
    out.append(text::quoted(mirror_url).as_str());
    out.append(
        "\n#   (Mirrors are honored via ~/.m2/settings.xml; see Maven docs for the\n#   <mirrors> block. dial-in records your choice here for reference.)\n#   use-roastery   = ",
    );
    out.append(text::bool_str(use_roastery));
    out.append("\n");
    let ghost head = out@;
    match roastery_url {
        Some(u) => {
            let mut line = text::two("#   roastery-url   = ", text::quoted(u).as_str());
            line.append("\n");
            out.append(line.as_str());
        },
        None => {
            assert(out@ =~= head + Seq::empty());
        },
    }
    out.append("#   strict-default = ");
    out.append(text::bool_str(strict));
    out.append("\n\n[network]\nmax-concurrent-connections = ");
    out.append(text::dec_u64(concurrency as u64).as_str());
    out.append("\n");
    out
}

/// The questions that the wizard asks before the one for the number of fetches.
pub open spec fn first_questions(use_roastery: bool) -> Seq<Asked> {
    let two = seq![
        Asked::Text { question: PROMPT_MIRROR_URL@, default: Some(DEFAULT_MIRROR_URL@) },
        Asked::YesNo { question: PROMPT_USE_ROASTERY@, yes: false },
    ];
    if use_roastery {
        two.push(Asked::Text { question: PROMPT_ROASTERY_URL@, default: None })
    } else {
        two
    }
}

/// The question for the number of fetches.
pub open spec fn number_question(suggested: nat) -> Asked {
    Asked::Text { question: PROMPT_CONCURRENCY@, default: Some(text::dec(suggested)) }
}

/// The questions that the wizard asks, in their order. The URL of the roastery is asked for
/// only after a yes; nothing is asked after an answer that does not fit.
pub open spec fn questions<P: Prompter>(lines: Seq<Seq<char>>, suggested: nat) -> Seq<Asked> {
    let rest = later(lines);
    match bool_reply(next_line(rest), PROMPT_USE_ROASTERY@, false, P::takes_long_forms()) {
        Err(_) => first_questions(false),
        Ok(b) => {
            let left = if b {
                later(later(rest))
            } else {
                later(rest)
            };
            let raw = text_reply(line_read::<P>(left), text::dec(suggested));
            let asked = first_questions(b).push(number_question(suggested));
            match text::unsigned_value(raw, u32::MAX as nat) {
                None => asked,
                Some(_) => asked.push(Asked::YesNo { question: PROMPT_STRICT@, yes: false }),
            }
        },
    }
}

/// Asks the questions. `present` tells whether the file is there already: it is not
/// overwritten, and nothing is asked, unless `force` is set. Gives what was answered and the
/// text of the file. An error of the prompter is returned as it came, and no other question
/// is asked after it; of the wizard's own there is one, that of a number that is none.
pub fn dial_in<P: Prompter>(opts: DialInOpts, present: bool, suggested: u32, prompter: &mut P) -> (r:
    Result<(DialInReport, String), DialInError>)
    ensures
        if present && !opts.force {
            (r matches Err(e) && e@ == (DialInFault::WouldOverwrite { path: opts.output_path@ }))
                && *final(prompter) == *old(prompter)
        } else {
            let all = questions::<P>(old(prompter).lines(), suggested as nat);
            let before = old(prompter).dialogue().asked;
            let after = final(prompter).dialogue();
            match r {
                Ok((report, contents)) => {
                    &&& report.output_path == opts.output_path
                    &&& wizard::<P>(old(prompter).lines(), suggested as nat) matches Ok(a)
                    &&& holds(report, a)
                    &&& contents@ == config_text(a)
                    &&& after.asked == before + all
                    &&& after.trouble is None
                },
                Err(e) => match after.trouble {
                    Some(t) => {
                        &&& e@ == t
                        &&& before.len() < after.asked.len() <= before.len() + all.len()
                        &&& after.asked == before + all.take(after.asked.len() - before.len())
                        &&& old(prompter).reliable() ==> after.asked == before + all && wizard::<P>(
                            old(prompter).lines(),
                            suggested as nat,
                        ) == Err::<Answers, DialInFault>(t)
                    },
                    None => {
                        &&& e is InvalidNumber
                        &&& after.asked == before + all
                        &&& wizard::<P>(old(prompter).lines(), suggested as nat) == Err::<
                            Answers,
                            DialInFault,
                        >(e@)
                    },
                },
            }
        },
{
    if present && !opts.force {
        return Err(DialInError::WouldOverwrite { path: opts.output_path });
    }
    let ghost before = prompter.dialogue().asked;
    let ghost all = questions::<P>(prompter.lines(), suggested as nat);
    let mirror_url = match prompter.ask_text(PROMPT_MIRROR_URL, Some(DEFAULT_MIRROR_URL)) {
        Ok(s) => s,
        Err(e) => {
            assert(prompter.dialogue().asked =~= before + all.take(1));
            return Err(e);
        },
    };
    let use_roastery = match prompter.ask_bool(PROMPT_USE_ROASTERY, false) {
        Ok(b) => b,
        Err(e) => {
            assert(prompter.dialogue().asked =~= before + all.take(2));
            assert(prompter.dialogue().asked =~= before + first_questions(false));
            return Err(e);
        },
    };
    assert(prompter.dialogue().asked =~= before + first_questions(false));
    let roastery_url = if use_roastery {
        match prompter.ask_text(PROMPT_ROASTERY_URL, None) {
            Ok(s) => if s.as_str().unicode_len() == 0 {
                None
            } else {
                Some(s)
            },
            Err(e) => {
                assert(prompter.dialogue().asked =~= before + all.take(3));
                return Err(e);
            },
        }
    } else {
        None
    };
    assert(prompter.dialogue().asked =~= before + first_questions(use_roastery));
    let ghost first = first_questions(use_roastery);
    let shown = text::dec_u64(suggested as u64);
    let raw = match prompter.ask_text(PROMPT_CONCURRENCY, Some(shown.as_str())) {
        Ok(s) => s,
        Err(e) => {
            assert(prompter.dialogue().asked =~= before + all.take(first.len() as int + 1));
            return Err(e);
        },
    };
    assert(prompter.dialogue().asked =~= before + first.push(number_question(suggested as nat)));
    let concurrency: u32 = match text::parse_unsigned(raw.as_str(), 0xffff_ffff) {
        Some(n) => clamp(n as u32),
        None => {
            return Err(
                DialInError::InvalidNumber {
                    question: PROMPT_CONCURRENCY.to_owned(),
                    value: raw,
                    kind: NUMBER_KIND.to_owned(),
                },
            );
        },
    };
    let strict = match prompter.ask_bool(PROMPT_STRICT, false) {
        Ok(b) => b,
        Err(e) => {
            assert(prompter.dialogue().asked =~= before + all.take(first.len() as int + 2));
            assert(prompter.dialogue().asked =~= before + all);
            return Err(e);
        },
    };
    assert(prompter.dialogue().asked =~= before + all);
    let shown_url = match &roastery_url {
        Some(u) => Some(u.as_str()),
        None => None,
    };
    let contents = render_toml(mirror_url.as_str(), use_roastery, shown_url, concurrency, strict);
    let report = DialInReport {
        output_path: opts.output_path,
        mirror_url,
        use_roastery,
        roastery_url,
        concurrency,
        strict,
    };
    Ok((report, contents))
}

/// The file that is written where none is named.
pub fn default_output_path(home: Option<&str>) -> (r: Result<String, DialInError>)
    ensures
        match home {
            Some(h) => r matches Ok(p) && p@ == paths::joined_path(
                paths::joined_path(h@, ".barista"@),
                "config.toml"@,
            ),
            None => r matches Err(e) && e is NoHome,
        },
{
    match home {
        Some(h) => {
            let dir = paths::join(h, ".barista");
            Ok(paths::join(dir.as_str(), "config.toml"))
        },
        None => Err(DialInError::NoHome),
    }
}

/// What `dial-in` prints of its outcome, and its exit code. `quiet` leaves the summary out,
/// never an error.
pub fn run(outcome: &Result<DialInReport, DialInError>, quiet: bool) -> (r: (Option<String>, i32))
    ensures
        match outcome {
            Ok(report) => r.1 == 0 && text::opt_text(r.0) == (if quiet {
                None
            } else {
                Some(
                    "dial-in: wrote "@ + report.output_path@ + " (concurrency="@ + text::dec(
                        report.concurrency as nat,
                    ) + ", roastery="@ + (if report.use_roastery {
                        "yes"@
                    } else {
                        "no"@
                    }) + ")"@,
                )
            }),
            Err(e) => r.1 == 1 && text::opt_text(r.0) == Some(
                "error: barista dial-in failed: "@ + fault_text(e@),
            ),
        },
{
    match outcome {
        Ok(report) => {
            if quiet {
                return (None, 0);
            }
            let mut s = text::four(
                "dial-in: wrote ",
                report.output_path.as_str(),
                " (concurrency=",
                text::dec_u64(report.concurrency as u64).as_str(),
            );
            s.append(", roastery=");
            s.append(
                if report.use_roastery {
                    "yes"
                } else {
                    "no"
                },
            );
            s.append(")");
            (Some(s), 0)
        },
        Err(e) => (
            Some(text::two("error: barista dial-in failed: ", e.to_message().as_str())),
            1,
        ),
    }
}

/// A question, as it is shown.
pub open spec fn prompt_of(q: Asked) -> Seq<char> {
    match q {
        Asked::Text { question, default } => match default {
            Some(d) => question + " ["@ + d + "]: "@,
            None => question + ": "@,
        },
        Asked::YesNo { question, yes } => bool_prompt(question, yes),
    }
}

/// The prompt to show next to someone who has typed these lines so far, or nothing where no
/// further line is needed.
pub open spec fn prompt_after(
    opts: DialInOpts,
    present: bool,
    suggested: nat,
    typed: Seq<Seq<char>>,
) -> Option<Seq<char>> {
    let all = questions::<StdinPrompter>(typed, suggested);
    if (present && !opts.force) || typed.len() >= all.len() {
        None
    } else {
        Some(prompt_of(all[typed.len() as int]))
    }
}

/// The prompt to show next to someone who has typed these lines so far. Once none is left,
/// [`dial_in`] with a [`StdinPrompter`] over the lines gives the answers.
pub fn next_prompt(opts: &DialInOpts, present: bool, suggested: u32, typed: &Vec<String>) -> (r:
    Option<String>)
    ensures
        text::opt_text(r) == prompt_after(*opts, present, suggested as nat, text::texts(typed@)),
{
    let ghost lines = text::texts(typed@);
    let ghost rest = later(lines);
    if present && !opts.force {
        return None;
    }
    if typed.len() == 0 {
        return Some(show_text_prompt(PROMPT_MIRROR_URL, Some(DEFAULT_MIRROR_URL)));
    }
    if typed.len() == 1 {
        return Some(show_bool_prompt(PROMPT_USE_ROASTERY, false));
    }
    assert(next_line(rest) == Some(lines[1]));
    let second = Some(typed[1].clone());
    let roastery = match bool_answer(second, PROMPT_USE_ROASTERY, false, false) {
        Ok(b) => b,
        Err(_) => return None,
    };
    if roastery && typed.len() == 2 {
        return Some(show_text_prompt(PROMPT_ROASTERY_URL, None));
    }
    let at: usize = if roastery {
        3
    } else {
        2
    };
    let shown = text::dec_u64(suggested as u64);
    if typed.len() == at {
        return Some(show_text_prompt(PROMPT_CONCURRENCY, Some(shown.as_str())));
    }
    let ghost left = if roastery {
        later(later(rest))
    } else {
        later(rest)
    };
    assert(next_line(left) == Some(lines[at as int]));
    let number = typed_answer(Some(typed[at].clone()));
    let raw = text_answer(number, Some(shown.as_str()));
    if typed.len() == at + 1 && text::parse_unsigned(raw.as_str(), 0xffff_ffff).is_some() {
        Some(show_bool_prompt(PROMPT_STRICT, false))
    } else {
        None
    }
}

// ---------------------------------------------------------------------------
// Laws
// ---------------------------------------------------------------------------

/// Whatever is answered, the number of parallel fetches stays within its bounds.
pub proof fn concurrency_stays_in_bounds<P: Prompter>(lines: Seq<Seq<char>>, suggested: nat)
    ensures
        wizard::<P>(lines, suggested) matches Ok(a) ==> 1 <= a.concurrency <= MAX_CONCURRENCY,
{
}

/// Where every answer is the default, the wizard succeeds with the suggested settings.
pub proof fn defaults_are_accepted<P: Prompter>(suggested: nat)
    requires
        1 <= suggested <= MAX_CONCURRENCY,
    ensures
        wizard::<P>(Seq::empty(), suggested) == Ok::<Answers, DialInFault>(
            Answers {
                mirror_url: DEFAULT_MIRROR_URL@,
                use_roastery: false,
                roastery_url: None,
                concurrency: suggested,
                strict: false,
            },
        ),
{
    text::printed_number_reads_back(suggested);
}

/// Answers of yes and no are words, in any case and with any space around them: `y` and `yes`,
/// `n` and `no`, and `true` and `false` where these are taken; an empty answer is the default,
/// and anything else is refused with the question and the word.
pub proof fn yes_and_no_are_understood(
    line: Seq<char>,
    question: Seq<char>,
    default: bool,
    long: bool,
)
    ensures
        ({
            let w = text::lowered(text::trimmed(line));
            let r = bool_reply(Some(line), question, default, long);
            &&& w == "y"@ || w == "yes"@ ==> r == Ok::<bool, DialInFault>(true)
            &&& w == "n"@ || w == "no"@ ==> r == Ok::<bool, DialInFault>(false)
            &&& long && w == "true"@ ==> r == Ok::<bool, DialInFault>(true)
            &&& long && w == "false"@ ==> r == Ok::<bool, DialInFault>(false)
            &&& w.len() == 0 ==> r == Ok::<bool, DialInFault>(default)
            &&& r matches Err(e) ==> (e matches DialInFault::BadAnswer { question: q, value, .. } && q
                == question && value == w)
            &&& w.len() > 0 && w != "y"@ && w != "yes"@ && w != "n"@ && w != "no"@ && (!long || (w
                != "true"@ && w != "false"@)) ==> r is Err
        }),
        bool_reply(None, question, default, long) == Ok::<bool, DialInFault>(default),
{
    reveal_strlit("y");
    reveal_strlit("yes");
    reveal_strlit("n");
    reveal_strlit("no");
    reveal_strlit("true");
    reveal_strlit("false");
    assert("y"@.len() == 1 && "yes"@.len() == 3 && "n"@.len() == 1 && "no"@.len() == 2
        && "true"@.len() == 4 && "false"@.len() == 5);
    assert("y"@[0] == 'y' && "n"@[0] == 'n');
}

/// What was answered is what is settled, each answer in its place: the mirror, whether there is
/// a roastery and, only where there is one, its address, then the number of fetches and whether
/// to be strict. An empty answer is the default.
pub proof fn answers_are_kept_in_their_places(
    mirror: Seq<char>,
    roastery: Seq<char>,
    url: Seq<char>,
    number: Seq<char>,
    strict: Seq<char>,
    suggested: nat,
)
    ensures
        ({
            let long = seq![mirror, roastery, url, number, strict];
            let short = seq![mirror, roastery, number, strict];
            let yes = bool_reply(Some(roastery), PROMPT_USE_ROASTERY@, false, true);
            let count = text::unsigned_value(
                if number.len() == 0 {
                    text::dec(suggested)
                } else {
                    number
                },
                0xffff_ffff,
            );
            &&& yes == Ok::<bool, DialInFault>(true) ==> (wizard::<ScriptedPrompter>(long, suggested) matches Ok(
                a,
            ) ==> {
                &&& a.use_roastery
                &&& url.len() > 0 ==> a.roastery_url == Some(url)
                &&& url.len() == 0 ==> a.roastery_url is None
                &&& kept(a, mirror, count, strict)
            })
            &&& yes == Ok::<bool, DialInFault>(false) ==> (wizard::<ScriptedPrompter>(
                short,
                suggested,
            ) matches Ok(a) ==> {
                &&& !a.use_roastery
                &&& a.roastery_url is None
                &&& kept(a, mirror, count, strict)
            })
            &&& yes is Err ==> wizard::<ScriptedPrompter>(long, suggested) == Err::<
                Answers,
                DialInFault,
            >(yes->Err_0)
            &&& yes == Ok::<bool, DialInFault>(true) && count is None ==> (
            wizard::<ScriptedPrompter>(long, suggested) matches Err(
                DialInFault::InvalidNumber { value, .. },
            ) && (number.len() > 0 ==> value == number))
            &&& yes == Ok::<bool, DialInFault>(true) && count is Some && bool_reply(
                Some(strict),
                PROMPT_STRICT@,
                false,
                true,
            ) is Ok ==> wizard::<ScriptedPrompter>(long, suggested) is Ok
        }),
{
    let long = seq![mirror, roastery, url, number, strict];
    let short = seq![mirror, roastery, number, strict];
    assert(later(long) =~= seq![roastery, url, number, strict]);
    assert(later(later(long)) =~= seq![url, number, strict]);
    assert(later(later(later(long))) =~= seq![number, strict]);
    assert(later(later(later(later(long)))) =~= seq![strict]);
    assert(later(short) =~= seq![roastery, number, strict]);
    assert(later(later(short)) =~= seq![number, strict]);
    assert(later(later(later(short))) =~= seq![strict]);
}

/// Whether the answers hold the mirror, the number of fetches within 1 and 32, and strictness,
/// as they were given.
pub open spec fn kept(
    a: Answers,
    mirror: Seq<char>,
    count: Option<nat>,
    strict: Seq<char>,
) -> bool {
    &&& mirror.len() > 0 ==> a.mirror_url == mirror
    &&& mirror.len() == 0 ==> a.mirror_url == "https://repo.maven.apache.org/maven2"@
    &&& count matches Some(n) && {
        &&& 1 <= n <= 32 ==> a.concurrency == n
        &&& n == 0 ==> a.concurrency == 1
        &&& n > 32 ==> a.concurrency == 32
    }
    &&& bool_reply(Some(strict), PROMPT_STRICT@, false, true) == Ok::<bool, DialInFault>(a.strict)
}

/// The file that is written sets the number of fetches that was settled, and names the other
/// answers in its comments.
pub proof fn written_file_holds_the_answers(a: Answers)
    ensures
        ({
            let end = "\n#   use-roastery   = "@ + text::bool_text(a.use_roastery) + "\n"@ + (match a.roastery_url {
                Some(u) => "#   roastery-url   = "@ + text::quoted_text(u) + "\n"@,
                None => Seq::empty(),
            }) + "#   strict-default = "@ + text::bool_text(a.strict)
                + "\n\n[network]\nmax-concurrent-connections = "@ + text::dec(a.concurrency)
                + "\n"@;
            let whole = config_text(a);
            end.len() <= whole.len() && whole.skip(whole.len() - end.len()) == end
        }),
{
    reveal_strlit(
        "\n#   (Mirrors are honored via ~/.m2/settings.xml; see Maven docs for the\n#   <mirrors> block. dial-in records your choice here for reference.)\n#   use-roastery   = ",
    );
    reveal_strlit("\n#   use-roastery   = ");
    let end = "\n#   use-roastery   = "@ + text::bool_text(a.use_roastery) + "\n"@ + (match a.roastery_url {
                Some(u) => "#   roastery-url   = "@ + text::quoted_text(u) + "\n"@,
                None => Seq::empty(),
            }) + "#   strict-default = "@ + text::bool_text(a.strict)
                + "\n\n[network]\nmax-concurrent-connections = "@ + text::dec(a.concurrency)
                + "\n"@;
    let whole = config_text(a);
    assert(whole.skip(whole.len() - end.len()) =~= end);
}

/// The address of the roastery is asked for exactly where there is one; nothing is asked after
/// an answer that is refused.
pub proof fn follow_up_is_asked_only_on_yes(lines: Seq<Seq<char>>, suggested: nat)
    requires
        lines.len() >= 2,
    ensures
        ({
            let q = questions::<StdinPrompter>(lines, suggested);
            let yes = bool_reply(Some(lines[1]), PROMPT_USE_ROASTERY@, false, false);
            &&& q[0] == (Asked::Text {
                question: PROMPT_MIRROR_URL@,
                default: Some("https://repo.maven.apache.org/maven2"@),
            })
            &&& q[1] == (Asked::YesNo { question: PROMPT_USE_ROASTERY@, yes: false })
            &&& yes is Err ==> q.len() == 2
            &&& yes == Ok::<bool, DialInFault>(true) ==> q.len() >= 4 && q[2] == (Asked::Text {
                question: PROMPT_ROASTERY_URL@,
                default: None,
            }) && q[3] == number_question(suggested)
            &&& yes == Ok::<bool, DialInFault>(false) ==> q.len() >= 3 && q[2] == number_question(
                suggested,
            )
        }),
{
    assert(later(lines)[0] == lines[1]);
}

/// The suggested number of fetches is that of the cores, from 1 to 32.
pub proof fn suggestion_stays_in_bounds(n: nat)
    ensures
        1 <= n <= 32 ==> clamped(n) == n,
        n == 0 ==> clamped(n) == 1,
        n > 32 ==> clamped(n) == 32,
{
}

/// The answers are kept in `.barista/config.toml` of the home directory; without one there is
/// no place for them.
pub proof fn answers_are_kept_below_home(home: Option<&str>, r: Result<String, DialInError>)
    requires
        call_ensures(default_output_path, (home,), r),
    ensures
        home matches Some(h) ==> (r matches Ok(p) && p@ == paths::joined_path(
            paths::joined_path(h@, ".barista"@),
            "config.toml"@,
        )),
        home is None ==> r is Err,
{
}

/// As many fetches are suggested as there are cores, at most 32, and four where the cores are
/// not known.
pub proof fn cores_are_suggested(cores: Option<u32>, r: u32)
    requires
        call_ensures(default_concurrency, (cores,), r),
    ensures
        cores is None ==> r == 4,
        cores matches Some(n) ==> (1 <= n <= 32 ==> r == n) && (n > 32 ==> r == 32) && (n == 0
            ==> r == 1),
{
}

/// What was written is told, unless told to be quiet; what failed is always told.
pub proof fn wizard_tells_how_it_went(
    outcome: &Result<DialInReport, DialInError>,
    quiet: bool,
    r: (Option<String>, i32),
)
    requires
        call_ensures(run, (outcome, quiet), r),
    ensures
        *outcome is Ok <==> r.1 == 0,
        *outcome is Err <==> r.1 == 1,
        *outcome is Ok ==> (r.0 is None <==> quiet),
        *outcome is Err ==> r.0 is Some,
        *outcome matches Ok(report) ==> (r.0 matches Some(t) ==> t@ == "dial-in: wrote "@
            + report.output_path@ + " (concurrency="@ + text::dec(report.concurrency as nat)
            + ", roastery="@ + (if report.use_roastery {
            "yes"@
        } else {
            "no"@
        }) + ")"@),
{
    if let Some(t) = r.0 {
        assert(text::opt_text(r.0) == Some(t@));
    }
}

/// What is said of an error is said of what it holds.
pub proof fn models_are_of_their_errors(e: DialInError, r: DialInReport, a: Answers)
    ensures
        e matches DialInError::Io(d) ==> e@ == DialInFault::Io(d@),
        e matches DialInError::WouldOverwrite { path } ==> (e@ matches DialInFault::WouldOverwrite {
            path: p,
        } && p == path@),
        e is NoHome <==> e@ is NoHome,
        e matches DialInError::BadAnswer { question, value, expected } ==> (
        e@ matches DialInFault::BadAnswer { question: q, value: v, expected: x } && q == question@
            && v == value@ && x == expected@),
        e matches DialInError::InvalidNumber { question, value, kind } ==> (
        e@ matches DialInFault::InvalidNumber { question: q, value: v, kind: k } && q == question@
            && v == value@ && k == kind@),
        holds(r, a) ==> r.mirror_url@ == a.mirror_url && r.use_roastery == a.use_roastery
            && r.concurrency == a.concurrency && r.strict == a.strict && (r.roastery_url matches Some(
            u,
        ) ==> a.roastery_url == Some(u@)) && (r.roastery_url is None ==> a.roastery_url is None),
{
}

/// An answer that is refused is told with the question, the answer and what would be accepted.
pub proof fn refused_answers_are_explained(
    question: Seq<char>,
    value: Seq<char>,
    expected: Seq<char>,
    path: Seq<char>,
)
    ensures
        text::is_beginning_and_end(
            fault_text(DialInFault::BadAnswer { question, value, expected }),
            "answer to "@ + text::quoted_text(question) + " was "@ + text::quoted_text(value)
                + ", but expected one of: "@,
            expected,
        ),
        text::is_beginning_and_end(
            fault_text(DialInFault::InvalidNumber { question, value, kind: expected }),
            "answer to "@ + text::quoted_text(question) + " ("@ + text::quoted_text(value)
                + ") is not a valid "@,
            expected,
        ),
        text::is_beginning_and_end(
            fault_text(DialInFault::Io(value)),
            "I/O while reading or writing answers: "@,
            value,
        ),
        fault_text(DialInFault::WouldOverwrite { path })
            == "refusing to overwrite existing config at "@ + text::quoted_path_text(path)
            + "; pass --force to clobber it"@,
{
    text::two_parts_are_beginning_and_end(
        "answer to "@ + text::quoted_text(question) + " was "@ + text::quoted_text(value)
            + ", but expected one of: "@,
        expected,
    );
    text::two_parts_are_beginning_and_end(
        "answer to "@ + text::quoted_text(question) + " ("@ + text::quoted_text(value)
            + ") is not a valid "@,
        expected,
    );
    text::two_parts_are_beginning_and_end("I/O while reading or writing answers: "@, value);
}

/// A question shows what is taken where nothing is typed: the default of a text, and the
/// capital letter of a yes or no.
pub proof fn prompts_show_their_default(question: Seq<char>, d: Seq<char>, default: Option<&str>)
    ensures
        bool_prompt(question, true) == question + " [Y/n]: "@,
        bool_prompt(question, false) == question + " [y/N]: "@,
        default matches Some(t) ==> text_prompt(question, default) == question + " ["@ + t@
            + "]: "@,
        default is None ==> text_prompt(question, default) == question + ": "@,
        prompt_of(Asked::Text { question, default: Some(d) }) == question + " ["@ + d + "]: "@,
        prompt_of(Asked::Text { question, default: None }) == question + ": "@,
        prompt_of(Asked::YesNo { question, yes: true }) == question + " [Y/n]: "@,
        prompt_of(Asked::YesNo { question, yes: false }) == question + " [y/N]: "@,
{
    reveal_strlit(" [Y/n]: ");
    reveal_strlit(" [y/N]: ");
    reveal_strlit("Y/n");
    reveal_strlit("y/N");
    reveal_strlit(" [");
    reveal_strlit("]: ");
    assert(" ["@ + "Y/n"@ + "]: "@ =~= " [Y/n]: "@);
    assert(" ["@ + "y/N"@ + "]: "@ =~= " [y/N]: "@);
    assert(bool_prompt(question, true) =~= question + (" ["@ + "Y/n"@ + "]: "@));
    assert(bool_prompt(question, false) =~= question + (" ["@ + "y/N"@ + "]: "@));
}

/// Lines are asked for one after the other until every question has its answer; nothing is
/// asked where a file would be overwritten.
pub proof fn prompts_follow_the_questions(
    opts: DialInOpts,
    present: bool,
    suggested: nat,
    typed: Seq<Seq<char>>,
)
    ensures
        present && !opts.force ==> prompt_after(opts, present, suggested, typed) is None,
        !(present && !opts.force) ==> ({
            let all = questions::<StdinPrompter>(typed, suggested);
            &&& typed.len() >= all.len() ==> prompt_after(opts, present, suggested, typed) is None
            &&& typed.len() < all.len() ==> prompt_after(opts, present, suggested, typed) == Some(
                prompt_of(all[typed.len() as int]),
            )
        }),
        number_question(suggested) == (Asked::Text {
            question: "Parallel-fetch concurrency (1-32)"@,
            default: Some(text::dec(suggested)),
        }),
{
}

} // verus!
