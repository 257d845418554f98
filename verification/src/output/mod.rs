//! What the commands show: reports, and the renderers that write them.

pub mod human;
pub mod json;
pub mod ndjson;
pub mod progress;
pub mod report;

use vstd::prelude::*;
use vstd::string::*;

use crate::cli::OutputFormat;
use crate::output::human::HumanRenderer;
use crate::output::json::JsonRenderer;
use crate::output::ndjson::NdjsonRenderer;
use crate::output::report::{GrindTreeReport, PourReport, PullReport, VerifyReport};

verus! {

/// What kind of failure stopped a write.
#[derive(Debug, Clone, Copy, PartialEq, Eq, Structural)]
pub enum IoKind {
    /// What was to be written is not permitted.
    InvalidInput,
    /// The system refused the write.
    System,
}

/// Why a report could not be rendered.
#[derive(Debug)]
pub enum RenderError {
    /// The text could not be written.
    Io(IoKind, String),
    /// The report could not be serialized.
    Serialize(String),
}

/// The message of a rendering error.
pub open spec fn render_text(e: RenderError) -> Seq<char> {
    match e {
        RenderError::Io(_, d) => "output write: "@ + d@,
        RenderError::Serialize(d) => "output serialization: "@ + d@,
    }
}

impl RenderError {
    /// The message of this error.
    pub fn to_message(&self) -> (r: String)
        ensures
            r@ == render_text(*self),
    {
        match self {
            RenderError::Io(_, d) => {
                let mut s = "output write: ".to_owned();
                s.append(d.as_str());
                s
            },
            RenderError::Serialize(d) => {
                let mut s = "output serialization: ".to_owned();
                s.append(d.as_str());
                s
            },
        }
    }
}

/// The renderer of an invocation.
#[derive(Debug)]
pub enum Renderer {
    Human(HumanRenderer),
    Json(JsonRenderer),
    Ndjson(NdjsonRenderer),
}

/// Whether a renderer is for a format and has written nothing. `ansi` colours text for people
/// and indents JSON documents.
pub open spec fn is_fresh(r: Renderer, format: OutputFormat, ansi: bool, now: Seq<char>) -> bool {
    match r {
        Renderer::Human(h) => format == OutputFormat::Human && h.out@ == Seq::<char>::empty()
            && h.err@ == Seq::<char>::empty() && h.ansi == ansi,
        Renderer::Json(j) => format == OutputFormat::Json && j.out@ == Seq::<char>::empty()
            && j.pretty == ansi && !j.spoken,
        Renderer::Ndjson(n) => format == OutputFormat::Ndjson && n.out@ == Seq::<char>::empty()
            && n.clock is None && n.at() == now,
    }
}

/// The renderer of a format.
pub fn make_renderer(format: OutputFormat, ansi: bool, now: String) -> (r: Renderer)
    ensures
        is_fresh(r, format, ansi, now@),
{
    match format {
        OutputFormat::Human => Renderer::Human(HumanRenderer::new(ansi)),
        OutputFormat::Json => Renderer::Json(JsonRenderer::new(ansi)),
        OutputFormat::Ndjson => Renderer::Ndjson(NdjsonRenderer::new(now)),
    }
}

/// Whether output is coloured and indented: on a terminal, unless colour is switched off.
pub fn wants_ansi(no_color: bool, terminal: bool) -> (r: bool)
    ensures
        r == (!no_color && terminal),
{
    !no_color && terminal
}

/// Whether `b` is `a` after a report for programs: `document` is the report's JSON form.
pub open spec fn adds_document(
    a: Renderer,
    b: Renderer,
    r: Result<(), RenderError>,
    document: Seq<char>,
) -> bool {
    match (a, b) {
        (Renderer::Json(x), Renderer::Json(y)) => y.pretty == x.pretty && y.spoken && (match r {
            Ok(_) => !x.spoken && y.out@ == x.out@ + document + "\n"@,
            Err(e) => x.spoken && y.out@ == x.out@ && json::is_refusal(e),
        }),
        (Renderer::Ndjson(x), Renderer::Ndjson(y)) => r is Ok && ndjson::adds_line(
            x,
            y,
            ndjson::result_object(document, x.at()),
        ),
        _ => false,
    }
}

/// Whether `b` is `a` and what people are shown, on standard output and on standard error.
pub open spec fn adds_text(
    a: HumanRenderer,
    b: HumanRenderer,
    out: Seq<char>,
    err: Seq<char>,
) -> bool {
    b.ansi == a.ansi && b.out@ == a.out@ + out && b.err@ == a.err@ + err
}

/// Whether `b` is `a` after a report: `out` and `err` for people, `document` for programs.
pub open spec fn shows(
    a: Renderer,
    b: Renderer,
    r: Result<(), RenderError>,
    out: Seq<char>,
    err: Seq<char>,
    document: Seq<char>,
) -> bool {
    match (a, b) {
        (Renderer::Human(x), Renderer::Human(y)) => r is Ok && adds_text(x, y, out, err),
        _ => adds_document(a, b, r, document),
    }
}

impl Renderer {
    /// Renders what `pull` did; `document` is the report's JSON form.
    pub fn render_pull(&mut self, report: &PullReport, document: &str) -> (r: Result<(), RenderError>)
        ensures
            shows(
                *old(self),
                *final(self),
                r,
                Seq::empty(),
                "pull: "@ + report::pull_summary(*report) + "\n"@,
                document@,
            ),
    {
        match self {
            Renderer::Human(h) => {
                let ghost before = *h;
                h.render_pull(report);
                assert(h.out@ =~= before.out@ + Seq::empty());
                assert(h.err@ =~= before.err@ + ("pull: "@ + report::pull_summary(*report) + "\n"@));
                Ok(())
            },
            Renderer::Json(j) => j.write_doc(document),
            Renderer::Ndjson(n) => {
                n.render_result(document);
                Ok(())
            },
        }
    }

    /// Renders a dependency tree; `document` is the report's JSON form.
    pub fn render_grind_tree(&mut self, report: &GrindTreeReport, document: &str) -> (r: Result<(), RenderError>)
        ensures
            shows(
                *old(self),
                *final(self),
                r,
                human::tree_text(*report),
                Seq::empty(),
                document@,
            ),
    {
        match self {
            Renderer::Human(h) => {
                let ghost before = *h;
                h.render_grind_tree(report);
                assert(h.out@ =~= before.out@ + human::tree_text(*report));
                assert(h.err@ =~= before.err@ + (Seq::empty()));
                Ok(())
            },
            Renderer::Json(j) => j.write_doc(document),
            Renderer::Ndjson(n) => {
                n.render_result(document);
                Ok(())
            },
        }
    }

    /// Renders what `pour` did; `document` is the report's JSON form.
    pub fn render_pour(&mut self, report: &PourReport, document: &str) -> (r: Result<(), RenderError>)
        ensures
            shows(
                *old(self),
                *final(self),
                r,
                Seq::empty(),
                "pour: "@ + report::pour_summary(*report) + "\n"@,
                document@,
            ),
    {
        match self {
            Renderer::Human(h) => {
                let ghost before = *h;
                h.render_pour(report);
                assert(h.out@ =~= before.out@ + Seq::empty());
                assert(h.err@ =~= before.err@ + ("pour: "@ + report::pour_summary(*report) + "\n"@));
                Ok(())
            },
            Renderer::Json(j) => j.write_doc(document),
            Renderer::Ndjson(n) => {
                n.render_result(document);
                Ok(())
            },
        }
    }

    /// Renders what a lifecycle command did; `document` is the report's JSON form.
    pub fn render_verify(&mut self, report: &VerifyReport, document: &str) -> (r: Result<(), RenderError>)
        ensures
            shows(
                *old(self),
                *final(self),
                r,
                Seq::empty(),
                report.phase@ + ": "@ + report::verify_summary(*report) + "\n"@ + human::failure_lines(report.invocations@, report.invocations@.len()),
                document@,
            ),
    {
        match self {
            Renderer::Human(h) => {
                let ghost before = *h;
                h.render_verify(report);
                assert(h.out@ =~= before.out@ + Seq::empty());
                assert(h.err@ =~= before.err@ + (report.phase@ + ": "@ + report::verify_summary(*report) + "\n"@ + human::failure_lines(report.invocations@, report.invocations@.len())));
                Ok(())
            },
            Renderer::Json(j) => j.write_doc(document),
            Renderer::Ndjson(n) => {
                n.render_result(document);
                Ok(())
            },
        }
    }

    /// Renders an error.
    pub fn render_error(&mut self, message: &str) -> (r: Result<(), RenderError>)
        ensures
            match (*old(self), *final(self)) {
                (Renderer::Human(x), Renderer::Human(y)) => r is Ok && adds_text(
                    x,
                    y,
                    Seq::empty(),
                    "error: "@ + message@ + "\n"@,
                ),
                (Renderer::Ndjson(x), Renderer::Ndjson(y)) => r is Ok && ndjson::adds_line(
                    x,
                    y,
                    ndjson::error_object(message@, x.at()),
                ),
                (Renderer::Json(x), Renderer::Json(y)) => adds_document(
                    *old(self),
                    *final(self),
                    r,
                    json::error_document(message@, x.pretty),
                ),
                _ => false,
            },
    {
        match self {
            Renderer::Human(h) => {
                let ghost before = *h;
                h.render_error(message);
                assert(h.out@ =~= before.out@ + Seq::empty());
                assert(h.err@ =~= before.err@ + ("error: "@ + message@ + "\n"@));
                Ok(())
            },
            Renderer::Json(j) => j.render_error(message),
            Renderer::Ndjson(n) => {
                n.render_error(message);
                Ok(())
            },
        }
    }
}

// ---------------------------------------------------------------------------
// Laws
// ---------------------------------------------------------------------------

/// An invocation with JSON output writes at most one document: whatever was rendered before,
/// a second report changes nothing.
pub proof fn one_json_document(
    a: JsonRenderer,
    b: JsonRenderer,
    c: JsonRenderer,
    r: Result<(), RenderError>,
    s: Result<(), RenderError>,
    first: Seq<char>,
    second: Seq<char>,
)
    requires
        adds_document(Renderer::Json(a), Renderer::Json(b), r, first),
        adds_document(Renderer::Json(b), Renderer::Json(c), s, second),
    ensures
        s is Err,
        c.out@ == b.out@,
{
}

/// The format decides what renders, and a fresh renderer has written nothing.
pub proof fn format_decides_the_renderer(
    r: Renderer,
    format: OutputFormat,
    ansi: bool,
    now: Seq<char>,
)
    requires
        is_fresh(r, format, ansi, now),
    ensures
        r is Human <==> format == OutputFormat::Human,
        r is Json <==> format == OutputFormat::Json,
        r is Ndjson <==> format == OutputFormat::Ndjson,
        r matches Renderer::Human(h) ==> h.out@.len() == 0 && h.err@.len() == 0 && h.ansi == ansi,
        r matches Renderer::Json(j) ==> j.out@.len() == 0 && !j.spoken && j.pretty == ansi,
        r matches Renderer::Ndjson(n) ==> n.out@.len() == 0 && n.at() == now,
{
}

/// A report is shown as text to people and as its document to programs: as the one document
/// of the output, or as a line that holds it.
pub proof fn report_is_shown_in_its_format(
    a: Renderer,
    b: Renderer,
    r: Result<(), RenderError>,
    out: Seq<char>,
    err: Seq<char>,
    document: Seq<char>,
)
    requires
        shows(a, b, r, out, err, document),
    ensures
        a is Human <==> b is Human,
        a is Json <==> b is Json,
        a matches Renderer::Human(x) ==> (b matches Renderer::Human(y) && r is Ok && y.out@
            == x.out@ + out && y.err@ == x.err@ + err),
        a matches Renderer::Json(x) ==> (b matches Renderer::Json(y) && (r is Ok <==> !x.spoken)
            && (!x.spoken ==> y.out@ == x.out@ + document + seq!['\n']) && (x.spoken ==> y.out@
            == x.out@) && y.spoken),
        a matches Renderer::Ndjson(x) ==> (b matches Renderer::Ndjson(y) && r is Ok && y.out@
            == x.out@ + ndjson::result_object(document, x.at()) + seq!['\n']),
{
    reveal_strlit("\n");
    assert("\n"@ =~= seq!['\n']);
}

/// Colors are for terminals where they are wanted.
pub proof fn colors_are_for_terminals(no_color: bool, terminal: bool, r: bool)
    requires
        call_ensures(wants_ansi, (no_color, terminal), r),
    ensures
        no_color ==> !r,
        !terminal ==> !r,
        terminal && !no_color ==> r,
{
}

/// What could not be written is told with what went wrong.
pub proof fn failed_output_tells_why(kind: IoKind, detail: String)
    ensures
        crate::text::is_beginning_and_end(
            render_text(RenderError::Io(kind, detail)),
            "output write: "@,
            detail@,
        ),
        crate::text::is_beginning_and_end(
            render_text(RenderError::Serialize(detail)),
            "output serialization: "@,
            detail@,
        ),
{
    crate::text::two_parts_are_beginning_and_end("output write: "@, detail@);
    crate::text::two_parts_are_beginning_and_end("output serialization: "@, detail@);
}

} // verus!
