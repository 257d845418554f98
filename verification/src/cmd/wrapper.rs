//! `barista wrapper`: the launchers of a project.

use vstd::prelude::*;
use vstd::string::*;

use crate::cli::WrapperArgs;
use crate::facts::{Facts, Lookup, PathKind};
use crate::paths;
use crate::text;

verus! {

/// The version of this program.
pub const BARISTA_VERSION: &'static str = "0.1.0";

/// The file that pins a version.
pub const WRAPPER_PROPERTIES_FILE: &'static str = "wrapper.properties";

/// The directory of a project's state.
pub const WRAPPER_STATE_DIR: &'static str = ".barista";

/// The launcher for a POSIX shell.
pub const LAUNCHER_SH: &'static str = "baristaw";

/// The launcher for Windows.
pub const LAUNCHER_CMD: &'static str = "baristaw.cmd";

/// Where releases are downloaded from. The launcher fills the placeholders in.
pub const DEFAULT_DISTRIBUTION_URL: &'static str =
    "https://github.com/buildwithbarista/barista/releases/download/v{version}/barista-{target}.tar.gz";

/// The version of this program.
pub fn current_barista_version() -> (r: &'static str)
    ensures
        r@ == BARISTA_VERSION@,
{
    BARISTA_VERSION
}

/// Why no wrapper was written.
#[derive(Debug)]
pub enum WrapperError {
    TargetNotDirectory { path: String },
    AlreadyExists { path: String },
    Io { path: String, source: String },
}

/// The message of an error.
pub open spec fn wrapper_text(e: WrapperError) -> Seq<char> {
    match e {
        WrapperError::TargetNotDirectory { path } => "`--root "@ + text::quoted_path_text(path@)
            + "` is not a directory"@,
        WrapperError::AlreadyExists { path } => text::quoted_path_text(path@)
            + " already exists. Re-run with `--force` to overwrite, or delete the file first."@,
        WrapperError::Io { path, source } => "I/O at "@ + text::quoted_path_text(path@) + ": "@
            + source@,
    }
}

impl WrapperError {
    /// The message of this error.
    pub fn to_message(&self) -> (r: String)
        ensures
            r@ == wrapper_text(*self),
    {
        match self {
            WrapperError::TargetNotDirectory { path } => {
                let mut s = text::two("`--root ", text::quoted_path(path.as_str()).as_str());
                s.append("` is not a directory");
                s
            },
            WrapperError::AlreadyExists { path } => text::two(
                text::quoted_path(path.as_str()).as_str(),
                " already exists. Re-run with `--force` to overwrite, or delete the file first.",
            ),
            WrapperError::Io { path, source } => text::four(
                "I/O at ",
                text::quoted_path(path.as_str()).as_str(),
                ": ",
                source.as_str(),
            ),
        }
    }
}

/// What is generated, and where.
#[derive(Debug)]
pub struct GeneratePlan {
    pub target_dir: String,
    pub version: String,
    pub distribution_url: String,
    pub checksum_sha256: Option<String>,
    pub force: bool,
}

/// A file of a wrapper.
#[derive(Debug)]
pub struct WrapperFile {
    pub path: String,
    pub contents: String,
    /// Whether the file can be run; on Unix its mode is 0755.
    pub executable: bool,
}

/// What is written: the paths, and each file with its contents.
#[derive(Debug)]
pub struct GenerateOutcome {
    pub written: Vec<String>,
    pub files: Vec<WrapperFile>,
}

/// Where the wrapper goes: `--root`, which has to be a directory, else the current directory.
pub fn resolve_target_dir(
    root: &Option<String>,
    known: &Facts,
    cwd: Result<String, String>,
) -> (r: Lookup<Result<String, WrapperError>>)
    ensures
        match root {
            Some(p) => match known.kind_at(p@) {
                None => r matches Lookup::NeedKind(q) && q@ == p@,
                Some(PathKind::Dir) => r matches Lookup::Known(Ok(d)) && d@ == p@,
                Some(_) => r matches Lookup::Known(Err(WrapperError::TargetNotDirectory { path }))
                    && path@ == p@,
            },
            None => match cwd {
                Ok(c) => r == Lookup::Known(Ok::<String, WrapperError>(c)),
                Err(d) => r matches Lookup::Known(Err(WrapperError::Io { path, source })) && path@
                    == "."@ && source == d,
            },
        },
{
    match root {
        Some(p) => match known.kind(p.as_str()) {
            None => Lookup::NeedKind(p.clone()),
            Some(k) => if k == PathKind::Dir {
                Lookup::Known(Ok(p.clone()))
            } else {
                Lookup::Known(Err(WrapperError::TargetNotDirectory { path: p.clone() }))
            },
        },
        None => match cwd {
            Ok(c) => Lookup::Known(Ok(c)),
            Err(source) => Lookup::Known(
                Err(WrapperError::Io { path: ".".to_owned(), source }),
            ),
        },
    }
}

/// What the arguments ask for below a directory.
pub fn plan_of(target_dir: String, args: &WrapperArgs) -> (r: GeneratePlan)
    ensures
        r.target_dir == target_dir,
        r.version@ == (match args.version {
            Some(v) => v@,
            None => BARISTA_VERSION@,
        }),
        r.distribution_url@ == (match args.distribution_url {
            Some(u) => u@,
            None => DEFAULT_DISTRIBUTION_URL@,
        }),
        text::opt_text(r.checksum_sha256) == text::opt_text(args.checksum),
        r.force == args.force,
{
    let version = match &args.version {
        Some(v) => v.clone(),
        None => current_barista_version().to_owned(),
    };
    let distribution_url = match &args.distribution_url {
        Some(u) => u.clone(),
        None => DEFAULT_DISTRIBUTION_URL.to_owned(),
    };
    GeneratePlan {
        target_dir,
        version,
        distribution_url,
        checksum_sha256: text::clone_opt(&args.checksum),
        force: args.force,
    }
}

/// The files of a wrapper, in the order in which they are written.
pub open spec fn files(dir: Seq<char>) -> Seq<Seq<char>> {
    seq![
        paths::joined_path(dir, LAUNCHER_SH@),
        paths::joined_path(dir, LAUNCHER_CMD@),
        paths::joined_path(paths::joined_path(dir, WRAPPER_STATE_DIR@), WRAPPER_PROPERTIES_FILE@),
    ]
}

/// The first of the files from `k` on that exists, or of which nothing is known.
pub open spec fn first_taken(fs: Seq<Seq<char>>, known: Facts, k: nat) -> Option<nat>
    decreases fs.len() - k,
{
    if k >= fs.len() {
        None
    } else if known.kind_at(fs[k as int]) == Some(PathKind::Missing) {
        first_taken(fs, known, k + 1)
    } else {
        Some(k)
    }
}

/// Whether `f` is a file with this path, these contents and this mode.
pub open spec fn is_file(
    f: WrapperFile,
    path: Seq<char>,
    contents: Seq<char>,
    executable: bool,
) -> bool {
    f.path@ == path && f.contents@ == contents && f.executable == executable
}

/// Whether these are the files of a wrapper: the launchers hold their texts, the properties
/// hold the plan, and the launcher for a POSIX shell is the only one that can be run.
pub open spec fn are_files(
    fs: Seq<WrapperFile>,
    plan: GeneratePlan,
    launcher_sh: Seq<char>,
    launcher_cmd: Seq<char>,
) -> bool {
    let paths = files(plan.target_dir@);
    &&& fs.len() == 3
    &&& is_file(fs[0], paths[0], launcher_sh, true)
    &&& is_file(fs[1], paths[1], launcher_cmd, false)
    &&& is_file(fs[2], paths[2], properties_text(plan), false)
}

/// The files to write, in their order: the two launchers, whose texts are given, then the
/// properties. Without `--force` nothing is written where one of them exists.
pub fn generate(plan: &GeneratePlan, known: &Facts, launcher_sh: &str, launcher_cmd: &str) -> (r:
    Lookup<Result<GenerateOutcome, WrapperError>>)
    ensures
        match r {
            Lookup::Known(Ok(o)) => text::texts(o.written@) == files(plan.target_dir@) && are_files(
                o.files@,
                *plan,
                launcher_sh@,
                launcher_cmd@,
            ) && (plan.force || first_taken(files(plan.target_dir@), *known, 0) is None),
            Lookup::Known(Err(WrapperError::AlreadyExists { path })) => !plan.force && (first_taken(
                files(plan.target_dir@),
                *known,
                0,
            ) matches Some(k) && path@ == files(plan.target_dir@)[k as int] && known.kind_at(path@)
                is Some),
            Lookup::NeedKind(p) => !plan.force && (first_taken(files(plan.target_dir@), *known, 0)
                matches Some(k) && p@ == files(plan.target_dir@)[k as int] && known.kind_at(p@)
                is None),
            _ => false,
        },
{
    let dir = plan.target_dir.as_str();
    let state = paths::join(dir, WRAPPER_STATE_DIR);
    let mut written: Vec<String> = Vec::new();
    written.push(paths::join(dir, LAUNCHER_SH));
    written.push(paths::join(dir, LAUNCHER_CMD));
    written.push(paths::join(state.as_str(), WRAPPER_PROPERTIES_FILE));
    let ghost fs = files(plan.target_dir@);
    assert(text::texts(written@) =~= fs);
    if !plan.force {
        let mut k: usize = 0;
        while k < written.len()
            invariant
                k <= written@.len(),
                !plan.force,
                fs == files(plan.target_dir@),
                text::texts(written@) == fs,
                first_taken(fs, *known, 0) == first_taken(fs, *known, k as nat),
            decreases written@.len() - k,
        {
            assert(fs[k as int] == written@[k as int]@);
            match known.kind(written[k].as_str()) {
                None => return Lookup::NeedKind(written[k].clone()),
                Some(kind) => {
                    if kind != PathKind::Missing {
                        return Lookup::Known(
                            Err(WrapperError::AlreadyExists { path: written[k].clone() }),
                        );
                    }
                },
            }
            k = k + 1;
        }
    }
    let mut made: Vec<WrapperFile> = Vec::new();
    assert(fs[0] == written@[0]@ && fs[1] == written@[1]@ && fs[2] == written@[2]@);
    made.push(
        WrapperFile {
            path: written[0].clone(),
            contents: launcher_sh.to_owned(),
            executable: true,
        },
    );
    made.push(
        WrapperFile {
            path: written[1].clone(),
            contents: launcher_cmd.to_owned(),
            executable: false,
        },
    );
    made.push(
        WrapperFile {
            path: written[2].clone(),
            contents: render_properties(plan),
            executable: false,
        },
    );
    Lookup::Known(Ok(GenerateOutcome { written, files: made }))
}

// ---------------------------------------------------------------------------
// TOML strings
// ---------------------------------------------------------------------------

/// Whether a character cannot stand in a string as it is.
pub open spec fn is_special(c: char) -> bool {
    c == '"' || c == '\\' || '\0' <= c < ' ' || c == '\u{7f}'
}

/// A character as it stands in a string.
pub open spec fn escaped_char(c: char) -> Seq<char> {
    if c == '"' || c == '\\' {
        seq!['\\', c]
    } else if is_special(c) {
        seq![
            '\\',
            'u',
            '0',
            '0',
            text::hex_char(c as nat / 16),
            text::hex_char(c as nat % 16),
        ]
    } else {
        seq![c]
    }
}

/// A text as it stands in a string.
pub open spec fn escaped(s: Seq<char>) -> Seq<char>
    decreases s.len(),
{
    if s.len() == 0 {
        Seq::empty()
    } else {
        escaped_char(s[0]) + escaped(s.drop_first())
    }
}

/// The value of a hexadecimal digit.
pub open spec fn hex_value(c: char) -> Option<nat> {
    if '0' <= c <= '9' {
        Some((c as nat - 48) as nat)
    } else if 'a' <= c <= 'f' {
        Some((c as nat - 87) as nat)
    } else {
        None
    }
}

/// The character that an escape beginning at the front of `t` stands for, and the length of
/// the escape.
pub open spec fn unescaped_char(t: Seq<char>) -> Option<(char, nat)> {
    if t.len() >= 2 && (t[1] == '"' || t[1] == '\\') {
        Some((t[1], 2))
    } else if t.len() >= 6 && t[1] == 'u' && t[2] == '0' && t[3] == '0' {
        match (hex_value(t[4]), hex_value(t[5])) {
            (Some(a), Some(b)) => Some(((16 * a + b) as char, 6)),
            _ => None,
        }
    } else {
        None
    }
}

/// Reads a string up to its closing quote: what it says, and what follows.
pub open spec fn read_string(t: Seq<char>) -> Option<(Seq<char>, Seq<char>)>
    decreases t.len(),
{
    if t.len() == 0 {
        None
    } else if t[0] == '"' {
        Some((Seq::empty(), t.skip(1)))
    } else if t[0] == '\\' {
        match unescaped_char(t) {
            None => None,
            Some((c, n)) => if n <= 0 || n > t.len() {
                None
            } else {
                match read_string(t.skip(n as int)) {
                    None => None,
                    Some((s, rest)) => Some((seq![c] + s, rest)),
                }
            },
        }
    } else if is_special(t[0]) {
        None
    } else {
        match read_string(t.skip(1)) {
            None => None,
            Some((s, rest)) => Some((seq![t[0]] + s, rest)),
        }
    }
}

proof fn escaped_push(s: Seq<char>, c: char)
    ensures
        escaped(s.push(c)) == escaped(s) + escaped_char(c),
    decreases s.len(),
{
    if s.len() == 0 {
        reveal_with_fuel(escaped, 2);
        assert(s.push(c).drop_first() =~= Seq::empty());
        assert(escaped(s.push(c)) =~= escaped_char(c));
        assert(escaped(s) + escaped_char(c) =~= escaped_char(c));
    } else {
        escaped_push(s.drop_first(), c);
        assert(s.push(c).drop_first() =~= s.drop_first().push(c));
        assert(escaped(s.push(c)) =~= escaped(s) + escaped_char(c));
    }
}

/// Adds a character as it stands in a string.
fn put_escaped(out: &mut String, c: char)
    ensures
        final(out)@ == old(out)@ + escaped_char(c),
{
    let ghost before = out@;
    if c == '"' || c == '\\' {
        out.push('\\');
        out.push(c);
        assert(out@ =~= before + escaped_char(c));
    } else if c < ' ' || c == '\u{7f}' {
        let code: u8 = c as u8;
        let mut byte: Vec<u8> = Vec::new();
        byte.push(code);
        let digits = text::hex_of(&byte);
        proof {
            reveal_strlit("\\u00");
            reveal_with_fuel(text::hex, 2);
            assert(byte@.drop_last() =~= Seq::empty());
            assert(digits@ =~= seq![
                text::hex_char(c as nat / 16),
                text::hex_char(c as nat % 16),
            ]);
        }
        out.append("\\u00");
        out.append(digits.as_str());
        assert(out@ =~= before + escaped_char(c));
    } else {
        out.push(c);
        assert(out@ =~= before + escaped_char(c));
    }
}

/// A text as it stands in a string.
pub fn escape(s: &str) -> (r: String)
    ensures
        r@ == escaped(s@),
{
    let chars = text::chars_of(s);
    let mut out = String::new();
    let mut i: usize = 0;
    assert(chars@.take(0) =~= Seq::empty());
    assert(out@ =~= Seq::empty());
    while i < chars.len()
        invariant
            i <= chars@.len(),
            chars@ == s@,
            out@ == escaped(s@.take(i as int)),
        decreases chars@.len() - i,
    {
        let c: char = chars[i];
        proof {
            assert(s@.take(i + 1) =~= s@.take(i as int).push(c));
            escaped_push(s@.take(i as int), c);
        }
        put_escaped(&mut out, c);
        i = i + 1;
    }
    assert(s@.take(s@.len() as int) =~= s@);
    out
}

/// The comment that the file begins with.
pub const PROPERTIES_HEADER: &'static str =
    "# baristaw wrapper configuration.\n# Edit `version` to change the pinned barista release.\n# {version} and {target} in `distribution_url` are\n# substituted by the launcher script at run time.\n\n";

/// A key and its string, on a line.
pub open spec fn entry(key: Seq<char>, value: Seq<char>) -> Seq<char> {
    key + " = \""@ + escaped(value) + "\"\n"@
}

/// A key and its string, on a line.
fn entry_line(key: &str, value: &str) -> (r: String)
    ensures
        r@ == entry(key@, value@),
{
    text::four(key, " = \"", escape(value).as_str(), "\"\n")
}

/// The contents of the file that pins a version: a TOML document with three strings.
pub open spec fn properties_text(plan: GeneratePlan) -> Seq<char> {
    PROPERTIES_HEADER@ + entry("version"@, plan.version@) + entry(
        "distribution_url"@,
        plan.distribution_url@,
    ) + entry("checksum_sha256"@, pinned_checksum(plan))
}

/// The checksum that a plan pins; an empty one pins nothing.
pub open spec fn pinned_checksum(plan: GeneratePlan) -> Seq<char> {
    match plan.checksum_sha256 {
        Some(c) => c@,
        None => ""@,
    }
}

/// The contents of the file that pins a version.
pub fn render_properties(plan: &GeneratePlan) -> (r: String)
    ensures
        r@ == properties_text(*plan),
{
    let mut out = PROPERTIES_HEADER.to_owned();
    out.append(entry_line("version", plan.version.as_str()).as_str());
    out.append(entry_line("distribution_url", plan.distribution_url.as_str()).as_str());
    let checksum = match &plan.checksum_sha256 {
        Some(c) => c.as_str(),
        None => "",
    };
    out.append(entry_line("checksum_sha256", checksum).as_str());
    out
}

/// What is told of a wrapper that was written.
pub open spec fn done_text(plan: GeneratePlan, outcome: GenerateOutcome) -> Seq<char> {
    "baristaw: wrote "@ + text::dec(outcome.written@.len()) + " files under "@ + plan.target_dir@
        + " (version "@ + plan.version@ + ")"@
}

/// What is told of a wrapper that was written.
pub fn run_inner(plan: &GeneratePlan, outcome: &GenerateOutcome) -> (r: String)
    ensures
        r@ == done_text(*plan, *outcome),
{
    let mut s = "baristaw: wrote ".to_owned();
    s.append(text::dec_u64(outcome.written.len() as u64).as_str());
    s.append(" files under ");
    s.append(plan.target_dir.as_str());
    s.append(" (version ");
    s.append(plan.version.as_str());
    s.append(")");
    s
}

/// What `wrapper` prints of its outcome, and its exit code. `quiet` leaves the summary out,
/// never an error.
pub fn run(outcome: Result<String, WrapperError>, quiet: bool) -> (r: (Option<String>, i32))
    ensures
        match outcome {
            Ok(s) => r.1 == 0 && text::opt_text(r.0) == (if quiet {
                None
            } else {
                Some(s@)
            }),
            Err(e) => r.1 == 1 && text::opt_text(r.0) == Some(
                "error: barista wrapper failed: "@ + wrapper_text(e),
            ),
        },
{
    match outcome {
        Ok(s) => if quiet {
            (None, 0)
        } else {
            (Some(s), 0)
        },
        Err(e) => (
            Some(text::two("error: barista wrapper failed: ", e.to_message().as_str())),
            1,
        ),
    }
}

// ---------------------------------------------------------------------------
// Laws
// ---------------------------------------------------------------------------

/// Whatever a text holds, its string reads back as the text and ends where its closing quote
/// stands.
pub proof fn strings_read_back(s: Seq<char>, rest: Seq<char>)
    ensures
        read_string(escaped(s) + seq!['"'] + rest) == Some((s, rest)),
    decreases s.len(),
{
    let t = escaped(s) + seq!['"'] + rest;
    if s.len() == 0 {
        assert(t[0] == '"');
        assert(t.skip(1) =~= rest);
        assert(s =~= Seq::empty());
    } else {
        let c = s[0];
        let later = s.drop_first();
        let e = escaped_char(c);
        let tail = escaped(later) + seq!['"'] + rest;
        strings_read_back(later, rest);
        assert(t =~= e + tail);
        assert(t.skip(e.len() as int) =~= tail);
        assert(t[0] == e[0]);
        assert(s =~= seq![c] + later);
        if c == '"' || c == '\\' {
            assert(t[1] == e[1]);
        } else if is_special(c) {
            assert(t[1] == e[1] && t[2] == e[2] && t[3] == e[3] && t[4] == e[4] && t[5] == e[5]);
            let n = c as nat;
            assert(n < 128);
            assert(n / 16 < 8 && n % 16 < 16);
            hex_reads_back(n / 16);
            hex_reads_back(n % 16);
            assert(16 * (n / 16) + n % 16 == n);
            assert(n as char == c);
        }
    }
}

/// Reads the line of a key: its string, and the lines after it.
pub open spec fn read_entry(t: Seq<char>, key: Seq<char>) -> Option<(Seq<char>, Seq<char>)> {
    if !(key + " = \""@).is_prefix_of(t) {
        None
    } else {
        match read_string(t.skip(key.len() as int + 4)) {
            None => None,
            Some((value, rest)) => if rest.len() > 0 && rest[0] == '\n' {
                Some((value, rest.skip(1)))
            } else {
                None
            },
        }
    }
}

/// Reads the file that pins a version: its version, address and checksum, with nothing
/// behind them.
pub open spec fn read_properties(t: Seq<char>) -> Option<(Seq<char>, Seq<char>, Seq<char>)> {
    if !PROPERTIES_HEADER@.is_prefix_of(t) {
        None
    } else {
        match read_entry(t.skip(PROPERTIES_HEADER@.len() as int), "version"@) {
            None => None,
            Some((version, t1)) => match read_entry(t1, "distribution_url"@) {
                None => None,
                Some((url, t2)) => match read_entry(t2, "checksum_sha256"@) {
                    None => None,
                    Some((checksum, t3)) => if t3.len() == 0 {
                        Some((version, url, checksum))
                    } else {
                        None
                    },
                },
            },
        }
    }
}

/// Whatever value a key has, its line reads back as the value.
pub proof fn entries_read_back(key: Seq<char>, value: Seq<char>, rest: Seq<char>)
    ensures
        read_entry(entry(key, value) + rest, key) == Some((value, rest)),
{
    reveal_strlit(" = \"");
    reveal_strlit("\"\n");
    let t = entry(key, value) + rest;
    assert((key + " = \""@) =~= t.subrange(0, key.len() as int + 4));
    assert(t.skip(key.len() as int + 4) =~= escaped(value) + seq!['"'] + (seq!['\n'] + rest));
    strings_read_back(value, seq!['\n'] + rest);
    assert((seq!['\n'] + rest).skip(1) =~= rest);
}

/// The file that pins a version reads back as what was planned, whatever the version, the
/// address and the checksum are.
pub proof fn properties_read_back(plan: GeneratePlan)
    ensures
        read_properties(properties_text(plan)) == Some(
            (plan.version@, plan.distribution_url@, pinned_checksum(plan)),
        ),
{
    let a = entry("version"@, plan.version@);
    let b = entry("distribution_url"@, plan.distribution_url@);
    let c = entry("checksum_sha256"@, pinned_checksum(plan));
    let nothing = Seq::<char>::empty();
    let t = properties_text(plan);
    assert(t.subrange(0, PROPERTIES_HEADER@.len() as int) =~= PROPERTIES_HEADER@);
    assert(t.skip(PROPERTIES_HEADER@.len() as int) =~= a + (b + (c + nothing)));
    entries_read_back("version"@, plan.version@, b + (c + nothing));
    entries_read_back("distribution_url"@, plan.distribution_url@, c + nothing);
    entries_read_back("checksum_sha256"@, pinned_checksum(plan), nothing);
}

proof fn hex_reads_back(d: nat)
    requires
        d < 16,
    ensures
        hex_value(text::hex_char(d)) == Some(d),
{
}

/// Where no file is taken, each of them is known to be missing.
pub proof fn untaken_files_are_missing(fs: Seq<Seq<char>>, known: Facts, k: nat)
    requires
        first_taken(fs, known, k) is None,
    ensures
        forall|j: int|
            k <= j < fs.len() ==> known.kind_at(#[trigger] fs[j]) == Some(PathKind::Missing),
    decreases fs.len() - k,
{
    if k < fs.len() {
        untaken_files_are_missing(fs, known, k + 1);
    }
}

/// The launchers stand in the directory itself and the pinned version below `.barista`.
pub proof fn files_stand_where_they_are_looked_for(dir: Seq<char>)
    ensures
        files(dir).len() == 3,
        files(dir)[0] == paths::joined_path(dir, "baristaw"@),
        files(dir)[1] == paths::joined_path(dir, "baristaw.cmd"@),
        files(dir)[2] == paths::joined_path(
            paths::joined_path(dir, ".barista"@),
            "wrapper.properties"@,
        ),
{
}

/// The file that is named as taken is the first that is not known to be missing.
pub proof fn first_taken_file_is_the_first(fs: Seq<Seq<char>>, known: Facts, k: nat)
    ensures
        first_taken(fs, known, k) matches Some(n) ==> {
            &&& k <= n < fs.len()
            &&& known.kind_at(fs[n as int]) != Some(PathKind::Missing)
            &&& forall|j: int|
                k <= j < n ==> known.kind_at(#[trigger] fs[j]) == Some(PathKind::Missing)
        },
    decreases fs.len() - k,
{
    if k < fs.len() && known.kind_at(fs[k as int]) == Some(PathKind::Missing) {
        first_taken_file_is_the_first(fs, known, k + 1);
    }
}

/// Of what is written only the launcher for shells can be run, and each file has the contents
/// that belong to it.
pub proof fn only_the_shell_launcher_runs(
    fs: Seq<WrapperFile>,
    plan: GeneratePlan,
    launcher_sh: Seq<char>,
    launcher_cmd: Seq<char>,
)
    requires
        are_files(fs, plan, launcher_sh, launcher_cmd),
    ensures
        fs.len() == 3,
        forall|i: int| 0 <= i < 3 ==> ((#[trigger] fs[i]).executable <==> i == 0),
        fs[0].contents@ == launcher_sh,
        fs[1].contents@ == launcher_cmd,
        fs[0].path@ == paths::joined_path(plan.target_dir@, "baristaw"@),
        fs[1].path@ == paths::joined_path(plan.target_dir@, "baristaw.cmd"@),
        read_properties(fs[2].contents@) == Some(
            (plan.version@, plan.distribution_url@, pinned_checksum(plan)),
        ),
{
    properties_read_back(plan);
}

/// A checksum is pinned where one was given, and none where not.
pub proof fn given_checksum_is_pinned(plan: GeneratePlan)
    ensures
        plan.checksum_sha256 matches Some(c) ==> pinned_checksum(plan) == c@,
        plan.checksum_sha256 is None ==> pinned_checksum(plan).len() == 0,
{
    reveal_strlit("");
}

/// The wrapper goes to the root that is named, which has to be a directory, and otherwise to
/// the current directory.
pub proof fn wrapper_goes_to_the_named_root(
    root: &Option<String>,
    known: &Facts,
    cwd: Result<String, String>,
    r: Lookup<Result<String, WrapperError>>,
)
    requires
        call_ensures(resolve_target_dir, (root, known, cwd), r),
    ensures
        *root matches Some(p) ==> {
            &&& known.kind_at(p@) == Some(PathKind::Dir) ==> (r matches Lookup::Known(Ok(d)) && d@
                == p@)
            &&& known.kind_at(p@) is None ==> r is NeedKind
            &&& known.kind_at(p@) is Some && known.kind_at(p@) != Some(PathKind::Dir) ==> (
            r matches Lookup::Known(Err(WrapperError::TargetNotDirectory { path })) && path@ == p@)
        },
        *root is None ==> (cwd matches Ok(c) ==> r == Lookup::Known(Ok::<String, WrapperError>(c))),
{
}

/// What was asked for is what is planned, and what was not is this release from its own place.
pub proof fn plan_is_what_was_asked(target_dir: String, args: &WrapperArgs, r: GeneratePlan)
    requires
        call_ensures(plan_of, (target_dir, args), r),
    ensures
        r.target_dir == target_dir,
        r.force == args.force,
        args.version matches Some(v) ==> r.version@ == v@,
        args.version is None ==> r.version@ == "0.1.0"@,
        args.distribution_url matches Some(u) ==> r.distribution_url@ == u@,
        args.distribution_url is None ==> r.distribution_url@
            == "https://github.com/buildwithbarista/barista/releases/download/v{version}/barista-{target}.tar.gz"@,
        args.checksum matches Some(c) ==> (r.checksum_sha256 matches Some(d) && d@ == c@),
        args.checksum is None ==> r.checksum_sha256 is None,
{
}

/// Without `--force` nothing is written while one of the files may be there, and the file that
/// is there is named.
pub proof fn existing_files_are_kept(
    plan: &GeneratePlan,
    known: &Facts,
    launcher_sh: &str,
    launcher_cmd: &str,
    r: Lookup<Result<GenerateOutcome, WrapperError>>,
    i: int,
)
    requires
        call_ensures(generate, (plan, known, launcher_sh, launcher_cmd), r),
    ensures
        plan.force ==> (r matches Lookup::Known(Ok(_))),
        !plan.force && 0 <= i < 3 && known.kind_at(files(plan.target_dir@)[i]) != Some(
            PathKind::Missing,
        ) ==> !(r matches Lookup::Known(Ok(_))),
        r matches Lookup::Known(Err(e)) ==> (e matches WrapperError::AlreadyExists { path }
            && known.kind_at(path@) != Some(PathKind::Missing) && files(
            plan.target_dir@,
        ).contains(path@)),
        r matches Lookup::Known(Ok(o)) ==> o.written@.len() == 3 && o.files@.len() == 3
            && o.files@[0].contents@ == launcher_sh@ && o.files@[1].contents@ == launcher_cmd@
            && o.files@[0].executable && !o.files@[1].executable && !o.files@[2].executable,
{
    let fs = files(plan.target_dir@);
    first_taken_file_is_the_first(fs, *known, 0);
    if first_taken(fs, *known, 0) is None {
        untaken_files_are_missing(fs, *known, 0);
        if 0 <= i < 3 {
            assert(known.kind_at(fs[i]) == Some(PathKind::Missing));
        }
    }
    if let Lookup::Known(Ok(o)) = r {
        assert(text::texts(o.written@).len() == o.written@.len());
    }
}

/// A wrapper that was written exits with 0 and says so unless told to be quiet; one that was
/// not exits with 1 and always says why.
pub proof fn wrapper_tells_how_it_went(
    outcome: Result<String, WrapperError>,
    quiet: bool,
    r: (Option<String>, i32),
)
    requires
        call_ensures(run, (outcome, quiet), r),
    ensures
        outcome is Ok <==> r.1 == 0,
        outcome is Err <==> r.1 == 1,
        outcome is Ok ==> (r.0 is None <==> quiet),
        outcome is Err ==> r.0 is Some,
{
}

/// What was written is told with the count of the files, the place and the version.
pub proof fn written_wrapper_is_told(plan: GeneratePlan, outcome: GenerateOutcome)
    ensures
        done_text(plan, outcome) == "baristaw: wrote "@ + text::dec(outcome.written@.len())
            + " files under "@ + plan.target_dir@ + " (version "@ + plan.version@ + ")"@,
{
}

/// What kept a wrapper from being written is told with the place.
pub proof fn errors_name_the_place(path: String, source: String)
    ensures
        wrapper_text(WrapperError::TargetNotDirectory { path }) == "`--root "@
            + text::quoted_path_text(path@) + "` is not a directory"@,
        text::quoted_path_text(path@).is_prefix_of(
            wrapper_text(WrapperError::AlreadyExists { path }),
        ),
        text::is_beginning_and_end(
            wrapper_text(WrapperError::Io { path, source }),
            "I/O at "@ + text::quoted_path_text(path@) + ": "@,
            source@,
        ),
{
    text::two_parts_are_beginning_and_end(
        "I/O at "@ + text::quoted_path_text(path@) + ": "@,
        source@,
    );
}

/// A string holds no character that would end it or break its line: a quote and a backslash
/// stand behind a backslash, and no control character is left.
pub proof fn strings_hold_no_control_characters(s: Seq<char>)
    ensures
        forall|i: int|
            0 <= i < escaped(s).len() ==> !('\0' <= #[trigger] escaped(s)[i] && ' ' > escaped(
                s,
            )[i]) && escaped(s)[i] != '\u{7f}',
        s.len() == 1 && (s[0] == '"' || s[0] == '\\') ==> escaped(s) == seq!['\\', s[0]],
        s.len() == 1 && ' ' <= s[0] && s[0] != '"' && s[0] != '\\' && s[0] != '\u{7f}'
            ==> escaped(s) == s,
    decreases s.len(),
{
    if s.len() > 0 {
        let c = s[0];
        let e = escaped_char(c);
        let rest = escaped(s.drop_first());
        strings_hold_no_control_characters(s.drop_first());
        assert forall|i: int| 0 <= i < escaped(s).len() implies !('\0' <= #[trigger] escaped(s)[i]
            && ' ' > escaped(s)[i]) && escaped(s)[i] != '\u{7f}' by {
            if i < e.len() {
                assert(escaped(s)[i] == e[i]);
                if e.len() == 6 {
                    assert(c as nat / 16 < 16 && c as nat % 16 < 16);
                }
            } else {
                assert(escaped(s)[i] == rest[i - e.len()]);
            }
        }
        if s.len() == 1 {
            assert(s.drop_first() =~= Seq::empty());
            assert(escaped(s) =~= e);
            assert(s =~= seq![s[0]]);
        }
    }
}

} // verus!
