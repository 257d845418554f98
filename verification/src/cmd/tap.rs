//! `barista tap`: the registered remote endpoints.

use vstd::prelude::*;
use vstd::string::*;
use vstd::utf8::*;

use crate::cli::OutputFormat;
use crate::facts::{Answer, Facts, Lookup, PathKind};
use crate::paths;
use crate::text;

verus! {

/// The file that holds the taps.
pub const CONFIG_LEAF: &'static str = "barista.toml";

/// What is told where there is no tap.
pub const NO_TAPS: &'static str = "no taps registered";

/// Why a `tap` command failed.
#[derive(Debug)]
pub enum TapCmdError {
    /// The registry refused.
    Tap(String),
    NotFound { name: String },
    Runtime(String),
    Serialize(String),
    /// The registry could not be read or written.
    Persist(String),
}

/// The message of an error.
pub open spec fn tap_text(e: TapCmdError) -> Seq<char> {
    match e {
        TapCmdError::Tap(d) => d@,
        TapCmdError::NotFound { name } => "no tap named '"@ + name@ + "' is registered"@,
        TapCmdError::Runtime(d) => "could not start probe runtime: "@ + d@,
        TapCmdError::Serialize(d) => "serializing output: "@ + d@,
        TapCmdError::Persist(d) => d@,
    }
}

impl TapCmdError {
    /// The message of this error.
    pub fn to_message(&self) -> (r: String)
        ensures
            r@ == tap_text(*self),
    {
        match self {
            TapCmdError::Tap(d) => d.clone(),
            TapCmdError::NotFound { name } => {
                let mut s = text::two("no tap named '", name.as_str());
                s.append("' is registered");
                s
            },
            TapCmdError::Runtime(d) => text::two("could not start probe runtime: ", d.as_str()),
            TapCmdError::Serialize(d) => text::two("serializing output: ", d.as_str()),
            TapCmdError::Persist(d) => d.clone(),
        }
    }
}

/// Whether output is for programs.
pub fn json_output(output: OutputFormat) -> (r: bool)
    ensures
        r == (output != OutputFormat::Human),
{
    match output {
        OutputFormat::Human => false,
        OutputFormat::Json | OutputFormat::Ndjson => true,
    }
}

/// What a `tap` command shows of its outcome, and its exit code: an error is told to people
/// on a line, to programs by its message.
pub fn run(result: Result<i32, TapCmdError>, output: OutputFormat) -> (r: (Option<String>, i32))
    ensures
        match result {
            Ok(code) => r.0 is None && r.1 == code,
            Err(e) => r.1 == 1 && text::opt_text(r.0) == Some(
                if output == OutputFormat::Human {
                    "error: "@ + tap_text(e)
                } else {
                    tap_text(e)
                },
            ),
        },
{
    match result {
        Ok(code) => (None, code),
        Err(e) => {
            let message = e.to_message();
            if json_output(output) {
                (Some(message), 1)
            } else {
                (Some(text::two("error: ", message.as_str())), 1)
            }
        },
    }
}

// ---------------------------------------------------------------------------
// The configuration file
// ---------------------------------------------------------------------------

/// The file below a directory.
pub open spec fn config_of(dir: Seq<char>) -> Seq<char> {
    paths::joined_path(dir, CONFIG_LEAF@)
}

/// The file that the walk up from `dir` finds. The walk ends at a `.git` and at the top.
pub open spec fn config_above(dir: Seq<char>, f: Facts) -> Answer<Option<Seq<char>>>
    decreases dir.len(),
{
    match f.kind_at(config_of(dir)) {
        None => Answer::NeedKind(config_of(dir)),
        Some(PathKind::Missing) => match f.kind_at(paths::joined_path(dir, ".git"@)) {
            None => Answer::NeedKind(paths::joined_path(dir, ".git"@)),
            Some(PathKind::Missing) => match paths::parent_path(dir) {
                None => Answer::Known(None),
                Some(up) => {
                    proof {
                        paths::parent_is_shorter(dir);
                    }
                    config_above(up, f)
                },
            },
            Some(_) => Answer::Known(None),
        },
        Some(_) => Answer::Known(Some(config_of(dir))),
    }
}

/// The contents of a lookup for an optional path.
pub open spec fn found_model(r: Lookup<Option<String>>) -> Answer<Option<Seq<char>>> {
    match r {
        Lookup::Known(o) => Answer::Known(text::opt_text(o)),
        Lookup::NeedKind(p) => Answer::NeedKind(p@),
        Lookup::NeedText(p) => Answer::NeedText(p@),
    }
}

/// The file that the walk up from `start` finds.
pub fn walk_up_for_config(start: &str, known: &Facts) -> (r: Lookup<Option<String>>)
    ensures
        found_model(r) == config_above(start@, *known),
{
    let mut cursor = start.to_owned();
    loop
        invariant
            config_above(cursor@, *known) == config_above(start@, *known),
        decreases cursor@.len(),
    {
        let candidate = paths::join(cursor.as_str(), CONFIG_LEAF);
        match known.kind(candidate.as_str()) {
            None => return Lookup::NeedKind(candidate),
            Some(k) => {
                if k != PathKind::Missing {
                    return Lookup::Known(Some(candidate));
                }
            },
        }
        let git = paths::join(cursor.as_str(), ".git");
        match known.kind(git.as_str()) {
            None => return Lookup::NeedKind(git),
            Some(k) => {
                if k != PathKind::Missing {
                    return Lookup::Known(None);
                }
            },
        }
        proof {
            paths::parent_is_shorter(cursor@);
        }
        match paths::parent(cursor.as_str()) {
            None => return Lookup::Known(None),
            Some(up) => {
                cursor = up;
            },
        }
    }
}

/// The file that holds the taps: `--config`, else the one below `--root` or beside `-f`, else
/// the nearest one above, else the one in the current directory.
pub open spec fn config_file(
    config: Option<Seq<char>>,
    root: Option<Seq<char>>,
    file: Option<Seq<char>>,
    cwd: Seq<char>,
    f: Facts,
) -> Answer<Seq<char>> {
    match config {
        Some(c) => Answer::Known(c),
        None => match root {
            Some(d) => Answer::Known(config_of(d)),
            None => match file {
                Some(p) => match f.kind_at(p) {
                    None => Answer::NeedKind(p),
                    Some(PathKind::Dir) => Answer::Known(config_of(p)),
                    Some(_) => Answer::Known(
                        config_of(
                            match paths::parent_path(p) {
                                Some(d) => d,
                                None => Seq::empty(),
                            },
                        ),
                    ),
                },
                None => match config_above(cwd, f) {
                    Answer::Known(Some(c)) => Answer::Known(c),
                    Answer::Known(None) => Answer::Known(config_of(cwd)),
                    Answer::NeedKind(p) => Answer::NeedKind(p),
                    Answer::NeedText(p) => Answer::NeedText(p),
                },
            },
        },
    }
}

/// The contents of a lookup for a path.
pub open spec fn path_model(r: Lookup<String>) -> Answer<Seq<char>> {
    match r {
        Lookup::Known(s) => Answer::Known(s@),
        Lookup::NeedKind(p) => Answer::NeedKind(p@),
        Lookup::NeedText(p) => Answer::NeedText(p@),
    }
}

/// The file that holds the taps.
pub fn resolve_config_path(
    config: &Option<String>,
    root: &Option<String>,
    file: &Option<String>,
    cwd: &str,
    known: &Facts,
) -> (r: Lookup<String>)
    ensures
        path_model(r) == config_file(
            text::opt_text(*config),
            text::opt_text(*root),
            text::opt_text(*file),
            cwd@,
            *known,
        ),
{
    match config {
        Some(c) => return Lookup::Known(c.clone()),
        None => {},
    }
    match root {
        Some(d) => return Lookup::Known(paths::join(d.as_str(), CONFIG_LEAF)),
        None => {},
    }
    match file {
        Some(p) => {
            let dir = match known.kind(p.as_str()) {
                None => return Lookup::NeedKind(p.clone()),
                Some(k) => if k == PathKind::Dir {
                    p.clone()
                } else {
                    match paths::parent(p.as_str()) {
                        Some(d) => d,
                        None => {
                            let s = String::new();
                            assert(s@ =~= Seq::empty());
                            s
                        },
                    }
                },
            };
            return Lookup::Known(paths::join(dir.as_str(), CONFIG_LEAF));
        },
        None => {},
    }
    match walk_up_for_config(cwd, known) {
        Lookup::Known(Some(c)) => Lookup::Known(c),
        Lookup::Known(None) => Lookup::Known(paths::join(cwd, CONFIG_LEAF)),
        Lookup::NeedKind(p) => Lookup::NeedKind(p),
        Lookup::NeedText(p) => Lookup::NeedText(p),
    }
}

// ---------------------------------------------------------------------------
// Taps and tables
// ---------------------------------------------------------------------------

/// A tap, as it is shown.
#[derive(Debug)]
pub struct TapView {
    pub name: String,
    pub url: String,
    pub kind: String,
}

/// How a tap answered a probe.
#[derive(Debug)]
pub enum TapHealth {
    Healthy { detail: String },
    Unhealthy { reason: String },
}

/// A probed tap, as it is shown.
#[derive(Debug)]
pub struct StatusView {
    pub name: String,
    pub url: String,
    pub kind: String,
    pub healthy: bool,
    pub detail: String,
}

impl StatusView {
    /// What is shown of a probed tap.
    pub fn new(tap: &TapView, health: &TapHealth) -> (r: StatusView)
        ensures
            r.name@ == tap.name@,
            r.url@ == tap.url@,
            r.kind@ == tap.kind@,
            r.healthy == (*health is Healthy),
            r.detail@ == health_detail(*health),
    {
        let (healthy, detail) = match health {
            TapHealth::Healthy { detail } => (true, detail.clone()),
            TapHealth::Unhealthy { reason } => (false, reason.clone()),
        };
        StatusView {
            name: tap.name.clone(),
            url: tap.url.clone(),
            kind: tap.kind.clone(),
            healthy,
            detail,
        }
    }
}

/// What a probe said.
pub open spec fn health_detail(h: TapHealth) -> Seq<char> {
    match h {
        TapHealth::Healthy { detail } => detail@,
        TapHealth::Unhealthy { reason } => reason@,
    }
}

/// The taps to probe: the one that was asked for, which has to be there, else all of them.
/// `found` is what the registry holds under the name.
pub fn status_targets(name: Option<&str>, found: Option<TapView>, all: Vec<TapView>) -> (r: Result<
    Vec<TapView>,
    TapCmdError,
>)
    ensures
        match name {
            None => r == Ok::<Vec<TapView>, TapCmdError>(all),
            Some(n) => match found {
                Some(t) => r matches Ok(v) && v@ == seq![t],
                None => r matches Err(TapCmdError::NotFound { name: m }) && m@ == n@,
            },
        },
{
    match name {
        None => Ok(all),
        Some(n) => match found {
            Some(t) => {
                let mut v: Vec<TapView> = Vec::new();
                v.push(t);
                Ok(v)
            },
            None => Err(TapCmdError::NotFound { name: n.to_owned() }),
        },
    }
}

/// The exit code of `tap status`: 0 where every probed tap is healthy.
pub fn status_exit_code(views: &Vec<StatusView>) -> (r: i32)
    ensures
        r == 0 || r == 1,
        r == 0 <==> forall|j: int| 0 <= j < views@.len() ==> (#[trigger] views@[j]).healthy,
{
    let mut k: usize = 0;
    while k < views.len()
        invariant
            k <= views@.len(),
            forall|j: int| 0 <= j < k ==> (#[trigger] views@[j]).healthy,
        decreases views@.len() - k,
    {
        if !views[k].healthy {
            assert(!views@[k as int].healthy);
            return 1;
        }
        k = k + 1;
    }
    0
}

/// The width of a text in bytes.
pub open spec fn byte_len(s: Seq<char>) -> usize {
    encode_utf8(s).len() as usize
}

/// A text and blanks after it, up to `width` characters.
pub open spec fn left_padded(s: Seq<char>, width: usize) -> Seq<char> {
    if s.len() >= width {
        s
    } else {
        s + Seq::new((width - s.len()) as nat, |i: int| ' ')
    }
}

/// The larger of two widths.
pub open spec fn wider(a: usize, b: usize) -> usize {
    if a < b {
        b
    } else {
        a
    }
}

/// The width of the column of the first `k` names.
pub open spec fn name_width(rows: Seq<(Seq<char>, Seq<char>, Seq<char>)>, k: nat) -> usize
    decreases k,
{
    if k == 0 {
        4
    } else {
        wider(name_width(rows, (k - 1) as nat), byte_len(rows[k - 1].0))
    }
}

/// The width of the column of the first `k` URLs.
pub open spec fn url_width(rows: Seq<(Seq<char>, Seq<char>, Seq<char>)>, k: nat) -> usize
    decreases k,
{
    if k == 0 {
        3
    } else {
        wider(url_width(rows, (k - 1) as nat), byte_len(rows[k - 1].1))
    }
}

/// A row of a table.
pub open spec fn row_text(row: (Seq<char>, Seq<char>, Seq<char>), nw: usize, uw: usize) -> Seq<
    char,
> {
    left_padded(row.0, nw) + "  "@ + left_padded(row.1, uw) + "  "@ + row.2 + "\n"@
}

/// The first `k` rows of a table.
pub open spec fn rows_text(
    rows: Seq<(Seq<char>, Seq<char>, Seq<char>)>,
    nw: usize,
    uw: usize,
    k: nat,
) -> Seq<char>
    decreases k,
{
    if k == 0 {
        Seq::empty()
    } else {
        rows_text(rows, nw, uw, (k - 1) as nat) + row_text(rows[k - 1], nw, uw)
    }
}

/// The rows of the taps.
pub open spec fn tap_rows(taps: Seq<TapView>) -> Seq<(Seq<char>, Seq<char>, Seq<char>)> {
    taps.map_values(|t: TapView| (t.name@, t.url@, t.kind@))
}

/// The rows of the probed taps.
pub open spec fn status_rows(views: Seq<StatusView>) -> Seq<(Seq<char>, Seq<char>, Seq<char>)> {
    views.map_values(
        |v: StatusView|
            (
                v.name@,
                v.url@,
                (if v.healthy {
                    "HEALTHY ("@
                } else {
                    "UNHEALTHY ("@
                }) + v.detail@ + ")"@,
            ),
    )
}

/// The table of the taps: a heading, then one row for each, in columns as wide as needed.
pub open spec fn list_text(taps: Seq<TapView>) -> Seq<char> {
    let rows = tap_rows(taps);
    let nw = name_width(rows, rows.len());
    let uw = url_width(rows, rows.len());
    row_text(("NAME"@, "URL"@, "KIND"@), nw, uw) + rows_text(rows, nw, uw, rows.len())
}

/// The table of the probed taps: one row for each.
pub open spec fn status_text(views: Seq<StatusView>) -> Seq<char> {
    let rows = status_rows(views);
    let nw = name_width(rows, rows.len());
    let uw = url_width(rows, rows.len());
    rows_text(rows, nw, uw, rows.len())
}

/// A text and blanks after it, up to `width` characters.
fn pad(s: &str, width: usize) -> (r: String)
    ensures
        r@ == left_padded(s@, width),
{
    let mut out = s.to_owned();
    let mut n: usize = s.unicode_len();
    let ghost start = s@.len();
    assert(out@ =~= s@ + Seq::new((n - start) as nat, |i: int| ' '));
    while n < width
        invariant
            start == s@.len(),
            start <= n,
            n <= width || n == start,
            out@ == s@ + Seq::new((n - start) as nat, |i: int| ' '),
        decreases width - n,
    {
        let ghost before = Seq::new((n - start) as nat, |i: int| ' ');
        out.append(" ");
        proof {
            reveal_strlit(" ");
            assert(before + " "@ =~= Seq::new((n + 1 - start) as nat, |i: int| ' '));
            assert(out@ =~= s@ + (before + " "@));
        }
        n = n + 1;
    }
    assert(out@ =~= left_padded(s@, width));
    out
}

/// One row of a table.
fn row(name: &str, url: &str, last: &str, nw: usize, uw: usize) -> (r: String)
    ensures
        r@ == row_text((name@, url@, last@), nw, uw),
{
    let mut s = pad(name, nw);
    s.append("  ");
    s.append(pad(url, uw).as_str());
    s.append("  ");
    s.append(last);
    s.append("\n");
    s
}

/// The table of the taps.
pub fn tap_table(taps: &Vec<TapView>) -> (r: String)
    ensures
        r@ == list_text(taps@),
{
    let ghost rows = tap_rows(taps@);
    let mut nw: usize = 4;
    let mut uw: usize = 3;
    let mut k: usize = 0;
    while k < taps.len()
        invariant
            k <= taps@.len(),
            rows == tap_rows(taps@),
            nw == name_width(rows, k as nat),
            uw == url_width(rows, k as nat),
        decreases taps@.len() - k,
    {
        assert(rows[k as int] == (taps@[k as int].name@, taps@[k as int].url@, taps@[k as int].kind@));
        let n: usize = taps[k].name.as_str().len();
        let u: usize = taps[k].url.as_str().len();
        if nw < n {
            nw = n;
        }
        if uw < u {
            uw = u;
        }
        k = k + 1;
    }
    let mut out = row("NAME", "URL", "KIND", nw, uw);
    let ghost head = out@;
    let mut i: usize = 0;
    assert(out@ =~= head + rows_text(rows, nw, uw, 0));
    while i < taps.len()
        invariant
            i <= taps@.len(),
            rows == tap_rows(taps@),
            out@ == head + rows_text(rows, nw, uw, i as nat),
        decreases taps@.len() - i,
    {
        let t = &taps[i];
        assert(rows[i as int] == (t.name@, t.url@, t.kind@));
        let line = row(t.name.as_str(), t.url.as_str(), t.kind.as_str(), nw, uw);
        let ghost before = rows_text(rows, nw, uw, i as nat);
        out.append(line.as_str());
        assert(out@ =~= head + (before + line@));
        i = i + 1;
    }
    out
}

/// The table of the probed taps.
pub fn status_table(views: &Vec<StatusView>) -> (r: String)
    ensures
        r@ == status_text(views@),
{
    let ghost rows = status_rows(views@);
    let mut nw: usize = 4;
    let mut uw: usize = 3;
    let mut k: usize = 0;
    while k < views.len()
        invariant
            k <= views@.len(),
            rows == status_rows(views@),
            nw == name_width(rows, k as nat),
            uw == url_width(rows, k as nat),
        decreases views@.len() - k,
    {
        assert(rows[k as int].0 == views@[k as int].name@);
        assert(rows[k as int].1 == views@[k as int].url@);
        let n: usize = views[k].name.as_str().len();
        let u: usize = views[k].url.as_str().len();
        if nw < n {
            nw = n;
        }
        if uw < u {
            uw = u;
        }
        k = k + 1;
    }
    let mut out = String::new();
    let mut i: usize = 0;
    assert(out@ =~= rows_text(rows, nw, uw, 0));
    while i < views.len()
        invariant
            i <= views@.len(),
            rows == status_rows(views@),
            out@ == rows_text(rows, nw, uw, i as nat),
        decreases views@.len() - i,
    {
        let v = &views[i];
        let mut status = if v.healthy {
            "HEALTHY (".to_owned()
        } else {
            "UNHEALTHY (".to_owned()
        };
        status.append(v.detail.as_str());
        status.append(")");
        assert(rows[i as int] == (v.name@, v.url@, status@));
        let line = row(v.name.as_str(), v.url.as_str(), status.as_str(), nw, uw);
        out.append(line.as_str());
        i = i + 1;
    }
    out
}

/// What is told of a tap that was added.
pub fn added_line(name: &str, url: &str, kind: &str) -> (r: String)
    ensures
        r@ == "added tap '"@ + name@ + "' -> "@ + url@ + " ("@ + kind@ + ")"@,
{
    let mut s = text::four("added tap '", name, "' -> ", url);
    s.append(" (");
    s.append(kind);
    s.append(")");
    s
}

/// What is told of a tap that was removed, or that was not there.
pub fn removed_line(name: &str, removed: bool) -> (r: String)
    ensures
        r@ == (if removed {
            "removed tap '"@ + name@ + "'"@
        } else {
            "no tap named '"@ + name@ + "' (nothing to remove)"@
        }),
{
    if removed {
        let mut s = text::two("removed tap '", name);
        s.append("'");
        s
    } else {
        let mut s = text::two("no tap named '", name);
        s.append("' (nothing to remove)");
        s
    }
}

/// The rows of a table are as many lines as there are rows: each one adds text that ends in
/// a line break.
pub proof fn every_row_is_a_line(
    rows: Seq<(Seq<char>, Seq<char>, Seq<char>)>,
    nw: usize,
    uw: usize,
    k: nat,
)
    requires
        0 < k <= rows.len(),
    ensures
        rows_text(rows, nw, uw, k) == rows_text(rows, nw, uw, (k - 1) as nat) + row_text(
            rows[k - 1],
            nw,
            uw,
        ),
        row_text(rows[k - 1], nw, uw).last() == '\n',
{
    reveal_strlit("\n");
}

/// The file that is found is there, and is the `barista.toml` of some directory.
pub proof fn found_configuration_is_there(dir: Seq<char>, f: Facts)
    ensures
        config_above(dir, f) matches Answer::Known(Some(c)) ==> {
            &&& exists|d: Seq<char>| c == #[trigger] paths::joined_path(d, "barista.toml"@)
            &&& f.kind_at(c) matches Some(k) && k != PathKind::Missing
        },
    decreases dir.len(),
{
    assert(config_of(dir) == paths::joined_path(dir, "barista.toml"@));
    if f.kind_at(config_of(dir)) == Some(PathKind::Missing) {
        if let Some(up) = paths::parent_path(dir) {
            paths::parent_is_shorter(dir);
            found_configuration_is_there(up, f);
        }
    }
}

/// The nearest file upwards is found: that of the directory itself where it has one, else,
/// unless the directory is that of a repository, what is found from its parent.
pub proof fn nearest_configuration_is_found(dir: Seq<char>, f: Facts)
    ensures
        ({
            let own = f.kind_at(paths::joined_path(dir, "barista.toml"@));
            let git = f.kind_at(paths::joined_path(dir, ".git"@));
            &&& own is Some && own != Some(PathKind::Missing) ==> config_above(dir, f)
                == Answer::Known(Some(paths::joined_path(dir, "barista.toml"@)))
            &&& own == Some(PathKind::Missing) && git is Some && git != Some(PathKind::Missing)
                ==> config_above(dir, f) == Answer::Known(None::<Seq<char>>)
            &&& own == Some(PathKind::Missing) && git == Some(PathKind::Missing) ==> {
                &&& paths::parent_path(dir) is None ==> config_above(dir, f) == Answer::Known(
                    None::<Seq<char>>,
                )
                &&& paths::parent_path(dir) matches Some(up) ==> config_above(dir, f)
                    == config_above(up, f)
            }
            &&& own is None ==> config_above(dir, f) is NeedKind
        }),
{
}

/// A file that is named is the one that is used; a named directory has its own; otherwise the
/// nearest upwards is used, and where there is none, that of the current directory.
pub proof fn named_configuration_wins(
    config: Option<Seq<char>>,
    root: Option<Seq<char>>,
    file: Option<Seq<char>>,
    cwd: Seq<char>,
    f: Facts,
)
    ensures
        ({
            let r = config_file(config, root, file, cwd, f);
            &&& config matches Some(c) ==> r == Answer::Known(c)
            &&& config is None ==> (root matches Some(d) ==> r == Answer::Known(
                paths::joined_path(d, "barista.toml"@),
            ))
            &&& config is None && root is None ==> (file matches Some(p) ==> {
                &&& f.kind_at(p) is None ==> r == Answer::<Seq<char>>::NeedKind(p)
                &&& f.kind_at(p) == Some(PathKind::Dir) ==> r == Answer::Known(
                    paths::joined_path(p, "barista.toml"@),
                )
                &&& f.kind_at(p) is Some && f.kind_at(p) != Some(PathKind::Dir) ==> (paths::parent_path(p)
                    matches Some(d) ==> r == Answer::Known(paths::joined_path(d, "barista.toml"@)))
            })
            &&& config is None && root is None && file is None ==> {
                &&& config_above(cwd, f) matches Answer::Known(Some(c)) ==> r == Answer::Known(c)
                &&& config_above(cwd, f) == Answer::Known(None::<Seq<char>>) ==> r
                    == Answer::Known(paths::joined_path(cwd, "barista.toml"@))
            }
        }),
{
}

/// A column is as wide as its longest entry and never narrower than its heading.
pub proof fn columns_fit_their_entries(rows: Seq<(Seq<char>, Seq<char>, Seq<char>)>, k: nat)
    requires
        k <= rows.len(),
    ensures
        name_width(rows, k) >= 4,
        url_width(rows, k) >= 3,
        forall|i: int|
            0 <= i < k ==> name_width(rows, k) >= byte_len((#[trigger] rows[i]).0) && url_width(
                rows,
                k,
            ) >= byte_len(rows[i].1),
        name_width(rows, k) == 4 || exists|i: int|
            0 <= i < k && name_width(rows, k) == byte_len((#[trigger] rows[i]).0),
        url_width(rows, k) == 3 || exists|i: int|
            0 <= i < k && url_width(rows, k) == byte_len((#[trigger] rows[i]).1),
    decreases k,
{
    if k > 0 {
        let last = rows[k - 1];
        columns_fit_their_entries(rows, (k - 1) as nat);
    }
}

/// An entry keeps its text and is filled up with spaces to the width of its column.
pub proof fn entries_are_filled_with_spaces(s: Seq<char>, width: usize)
    ensures
        s.is_prefix_of(left_padded(s, width)),
        s.len() <= width ==> left_padded(s, width).len() == width,
        s.len() > width ==> left_padded(s, width) == s,
        forall|i: int|
            s.len() <= i < left_padded(s, width).len() ==> #[trigger] left_padded(s, width)[i]
                == ' ',
{
}

/// The list of taps shows the name, the address and the kind of each; the status shows the
/// name, the address and whether it is healthy, with the details.
pub proof fn rows_show_their_tap(taps: Seq<TapView>, views: Seq<StatusView>)
    ensures
        tap_rows(taps).len() == taps.len(),
        forall|i: int|
            0 <= i < taps.len() ==> #[trigger] tap_rows(taps)[i] == (
                taps[i].name@,
                taps[i].url@,
                taps[i].kind@,
            ),
        status_rows(views).len() == views.len(),
        forall|i: int|
            0 <= i < views.len() ==> (#[trigger] status_rows(views)[i]).0 == views[i].name@
                && status_rows(views)[i].1 == views[i].url@ && (views[i].healthy
                ==> status_rows(views)[i].2 == "HEALTHY ("@ + views[i].detail@ + ")"@) && (
            !views[i].healthy ==> status_rows(views)[i].2 == "UNHEALTHY ("@ + views[i].detail@
                + ")"@),
{
}

/// A row shows its three entries in their order, with two spaces between, on a line.
pub proof fn row_shows_its_entries(row: (Seq<char>, Seq<char>, Seq<char>), nw: usize, uw: usize)
    ensures
        row_text(row, nw, uw) == left_padded(row.0, nw) + seq![' ', ' '] + left_padded(row.1, uw)
            + seq![' ', ' '] + row.2 + seq!['\n'],
{
    reveal_strlit("  ");
    reveal_strlit("\n");
    assert("  "@ =~= seq![' ', ' ']);
    assert("\n"@ =~= seq!['\n']);
}

/// The list starts with its headings, and the rows of the first taps come before those of the
/// later ones.
pub proof fn list_starts_with_its_headings(taps: Seq<TapView>)
    ensures
        ({
            let rows = tap_rows(taps);
            let nw = name_width(rows, rows.len());
            let uw = url_width(rows, rows.len());
            row_text(("NAME"@, "URL"@, "KIND"@), nw, uw).is_prefix_of(list_text(taps))
        }),
{
}

/// A command exits with its own code; an error exits with 1 and is told, to people as one.
pub proof fn tap_errors_are_told(
    result: Result<i32, TapCmdError>,
    output: OutputFormat,
    r: (Option<String>, i32),
)
    requires
        call_ensures(run, (result, output), r),
    ensures
        result matches Ok(code) ==> r.1 == code && r.0 is None,
        result is Err ==> r.1 == 1 && r.0 is Some,
        result matches Err(e) ==> (r.0 matches Some(t) && (output == OutputFormat::Human ==> t@
            == "error: "@ + tap_text(e)) && (output != OutputFormat::Human ==> t@ == tap_text(e))),
{
    if let Some(t) = r.0 {
        assert(text::opt_text(r.0) == Some(t@));
    }
}

/// Programs get JSON in either of its formats.
pub proof fn json_is_for_programs(output: OutputFormat, r: bool)
    requires
        call_ensures(json_output, (output,), r),
    ensures
        output == OutputFormat::Human ==> !r,
        output == OutputFormat::Json ==> r,
        output == OutputFormat::Ndjson ==> r,
{
}

/// All taps are asked unless one is named; a named one has to be registered.
pub proof fn named_tap_is_the_only_one_asked(
    name: Option<&str>,
    found: Option<TapView>,
    all: Vec<TapView>,
    r: Result<Vec<TapView>, TapCmdError>,
)
    requires
        call_ensures(status_targets, (name, found, all), r),
    ensures
        name is None ==> r == Ok::<Vec<TapView>, TapCmdError>(all),
        name is Some && found is Some ==> (r matches Ok(v) && v@.len() == 1 && v@[0] == found->0),
        name is Some && found is None ==> (r matches Err(TapCmdError::NotFound { name: n }) && n@
            == name->0@),
{
}

/// Where all taps are healthy, the status succeeds.
pub proof fn healthy_taps_succeed(views: &Vec<StatusView>, r: i32)
    requires
        call_ensures(status_exit_code, (views,), r),
    ensures
        r == 0 || r == 1,
        (forall|j: int| 0 <= j < views@.len() ==> (#[trigger] views@[j]).healthy) ==> r == 0,
{
}

/// The status of a tap is about that tap and tells whether it is healthy, and why.
pub proof fn status_is_about_its_tap(tap: &TapView, health: &TapHealth, r: StatusView)
    requires
        call_ensures(StatusView::new, (tap, health), r),
    ensures
        r.name@ == tap.name@,
        r.url@ == tap.url@,
        r.kind@ == tap.kind@,
        *health matches TapHealth::Healthy { detail } ==> r.healthy && r.detail@ == detail@,
        *health matches TapHealth::Unhealthy { reason } ==> !r.healthy && r.detail@ == reason@,
{
}

/// What was added and what was removed is told by its name.
pub proof fn changes_are_told_by_name(
    name: &str,
    url: &str,
    kind: &str,
    removed: bool,
    a: String,
    b: String,
)
    requires
        call_ensures(added_line, (name, url, kind), a),
        call_ensures(removed_line, (name, removed), b),
    ensures
        a@ == "added tap '"@ + name@ + "' -> "@ + url@ + " ("@ + kind@ + ")"@,
        removed ==> b@ == "removed tap '"@ + name@ + "'"@,
        !removed ==> b@ == "no tap named '"@ + name@ + "' (nothing to remove)"@,
{
}

/// A tap that is not registered is named.
pub proof fn unregistered_tap_is_named(name: String, detail: String)
    ensures
        tap_text(TapCmdError::NotFound { name }) == "no tap named '"@ + name@
            + "' is registered"@,
        tap_text(TapCmdError::Tap(detail)) == detail@,
        tap_text(TapCmdError::Persist(detail)) == detail@,
        text::is_beginning_and_end(
            tap_text(TapCmdError::Runtime(detail)),
            "could not start probe runtime: "@,
            detail@,
        ),
        text::is_beginning_and_end(
            tap_text(TapCmdError::Serialize(detail)),
            "serializing output: "@,
            detail@,
        ),
{
    text::two_parts_are_beginning_and_end("could not start probe runtime: "@, detail@);
    text::two_parts_are_beginning_and_end("serializing output: "@, detail@);
}

/// What is not known yet is asked for, and what was found is handed on as it is.
pub proof fn search_hands_on_what_it_found(p: String, o: Option<String>)
    ensures
        found_model(Lookup::Known(o)) == Answer::Known(text::opt_text(o)),
        found_model(Lookup::<Option<String>>::NeedKind(p)) == Answer::<
            Option<Seq<char>>,
        >::NeedKind(p@),
        found_model(Lookup::<Option<String>>::NeedText(p)) == Answer::<
            Option<Seq<char>>,
        >::NeedText(p@),
        path_model(Lookup::Known(p)) == Answer::Known(p@),
        path_model(Lookup::<String>::NeedKind(p)) == Answer::<Seq<char>>::NeedKind(p@),
        path_model(Lookup::<String>::NeedText(p)) == Answer::<Seq<char>>::NeedText(p@),
{
}

/// What the search upwards has to know first is what the whole search has to know first.
pub proof fn search_asks_for_what_is_missing(cwd: Seq<char>, f: Facts, p: Seq<char>)
    requires
        config_above(cwd, f) == Answer::<Option<Seq<char>>>::NeedKind(p),
    ensures
        config_file(None, None, None, cwd, f) == Answer::<Seq<char>>::NeedKind(p),
        f.kind_at(p) is None,
{
    missing_kind_is_unknown(cwd, f);
}

proof fn missing_kind_is_unknown(dir: Seq<char>, f: Facts)
    ensures
        config_above(dir, f) matches Answer::NeedKind(p) ==> f.kind_at(p) is None,
    decreases dir.len(),
{
    if f.kind_at(config_of(dir)) == Some(PathKind::Missing) {
        if let Some(up) = paths::parent_path(dir) {
            paths::parent_is_shorter(dir);
            missing_kind_is_unknown(up, f);
        }
    }
}

} // verus!
