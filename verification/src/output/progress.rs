//! Progress events, and the sinks that receive them.

use vstd::prelude::*;
use vstd::string::*;

use super::json;
use super::ndjson;
use super::ndjson::NdjsonRenderer;
use crate::cli::OutputFormat;

verus! {

/// One thing that a command tells while it runs.
#[derive(Debug)]
pub enum ProgressEvent {
    Started(String),
    Resolving(Option<String>),
    Fetching(String),
    Fetched(String),
    Cached(String),
    WritingLockfile,
    Completed(String),
    /// Not an event: what was written so far should reach its reader.
    Flush,
}

/// What an event is, where it is one.
pub open spec fn event_model(e: ProgressEvent) -> Option<ndjson::EventModel> {
    match e {
        ProgressEvent::Started(p) => Some(ndjson::started_event(p@)),
        ProgressEvent::Resolving(c) => Some(
            ndjson::resolving_event(crate::text::opt_text(c), None),
        ),
        ProgressEvent::Fetching(c) => Some(ndjson::fetching_event(c@, None)),
        ProgressEvent::Fetched(c) => Some(ndjson::fetched_event(c@)),
        ProgressEvent::Cached(c) => Some(ndjson::cached_event(c@)),
        ProgressEvent::WritingLockfile => Some(ndjson::writing_lockfile_event()),
        ProgressEvent::Completed(p) => Some(ndjson::completed_event(p@)),
        ProgressEvent::Flush => None,
    }
}

/// Whether `after` is `before` and, where the event is one, one more line.
pub open spec fn tells(before: Seq<char>, e: ProgressEvent, after: Seq<char>) -> bool {
    match event_model(e) {
        Some(_) => exists|object: Seq<char>| #[trigger] json::one_line(object) && after == before
            + object + "\n"@,
        None => after == before,
    }
}

/// Receives the progress of a command. A percentage is handed over as a JSON number. A sink
/// that is not verified need not say what its spec functions are.
pub trait ProgressSink {
    /// What was written so far.
    closed spec fn text(&self) -> Seq<char> {
        vstd::pervasive::arbitrary()
    }

    /// What this sink writes of an event.
    closed spec fn line(&self, e: ndjson::EventModel) -> Seq<char> {
        vstd::pervasive::arbitrary()
    }

    /// A run starts.
    fn started(&mut self, phase: &str)
        ensures
            final(self).text() == old(self).text() + old(self).line(ndjson::started_event(phase@)),
            forall|e: ndjson::EventModel| final(self).line(e) == old(self).line(e),
    ;

    /// Dependencies are being resolved.
    fn resolving(&mut self, coord: Option<&str>, progress: Option<&str>)
        ensures
            final(self).text() == old(self).text() + old(self).line(
                ndjson::resolving_event(ndjson::opt_str(coord), ndjson::opt_str(progress)),
            ),
            forall|e: ndjson::EventModel| final(self).line(e) == old(self).line(e),
    ;

    /// The fetch of an artifact starts.
    fn fetching(&mut self, coord: &str, progress: Option<&str>)
        ensures
            final(self).text() == old(self).text() + old(self).line(ndjson::fetching_event(coord@, ndjson::opt_str(progress))),
            forall|e: ndjson::EventModel| final(self).line(e) == old(self).line(e),
    ;

    /// The fetch of an artifact ended.
    fn fetched(&mut self, coord: &str)
        ensures
            final(self).text() == old(self).text() + old(self).line(ndjson::fetched_event(coord@)),
            forall|e: ndjson::EventModel| final(self).line(e) == old(self).line(e),
    ;

    /// An artifact was in the cache.
    fn cached(&mut self, coord: &str)
        ensures
            final(self).text() == old(self).text() + old(self).line(ndjson::cached_event(coord@)),
            forall|e: ndjson::EventModel| final(self).line(e) == old(self).line(e),
    ;

    /// The lockfile is being written.
    fn writing_lockfile(&mut self)
        ensures
            final(self).text() == old(self).text() + old(self).line(ndjson::writing_lockfile_event()),
            forall|e: ndjson::EventModel| final(self).line(e) == old(self).line(e),
    ;

    /// A run ended.
    fn completed(&mut self, phase: &str)
        ensures
            final(self).text() == old(self).text() + old(self).line(ndjson::completed_event(phase@)),
            forall|e: ndjson::EventModel| final(self).line(e) == old(self).line(e),
    ;

    /// What was written so far should reach its reader.
    fn flush(&mut self)
        ensures
            final(self).text() == old(self).text(),
            forall|e: ndjson::EventModel| final(self).line(e) == old(self).line(e),
    ;
}

/// Drops every event.
#[derive(Debug)]
pub struct NullSink;

/// The sink for people. Nothing is shown between start and end.
#[derive(Debug)]
pub struct HumanSink {
    /// What was written so far.
    pub err: String,
}

/// Writes one line for each event.
#[derive(Debug)]
pub struct NdjsonSink {
    renderer: NdjsonRenderer,
}

impl HumanSink {
    /// A sink that continues `err`.
    pub fn with_stderr(err: String) -> (r: HumanSink)
        ensures
            r.text() == err@,
    {
        HumanSink { err }
    }
}

impl NdjsonSink {
    /// The renderer that the lines go to.
    pub closed spec fn inner(&self) -> NdjsonRenderer {
        self.renderer
    }

    /// A sink that has written nothing yet; `now` is the timestamp of the next line.
    pub fn new(now: String) -> (r: NdjsonSink)
        ensures
            r.inner().out@ == Seq::<char>::empty(),
            r.inner().clock is None,
            r.inner().at() == now@,
    {
        NdjsonSink { renderer: NdjsonRenderer::new(now) }
    }

    /// A sink whose lines all have the timestamp `ts`.
    pub fn with_fixed_timestamp(ts: String) -> (r: NdjsonSink)
        ensures
            r.inner().out@ == Seq::<char>::empty(),
            r.inner().clock is Some,
            r.inner().at() == ts@,
    {
        NdjsonSink { renderer: NdjsonRenderer::with_fixed_timestamp(ts) }
    }

    /// The renderer that the lines went to.
    pub fn into_renderer(self) -> (r: NdjsonRenderer)
        ensures
            r == self.inner(),
    {
        self.renderer
    }

    /// Writes an event.
    fn tell(&mut self, event: &ProgressEvent)
        ensures
            final(self).text() == old(self).text() + (match event_model(*event) {
                Some(m) => old(self).line(m),
                None => Seq::empty(),
            }),
            tells(old(self).text(), *event, final(self).text()),
            forall|e: ndjson::EventModel| final(self).line(e) == old(self).line(e),
    {
        let ghost at = self.inner().at();
        match event {
            ProgressEvent::Started(p) => self.renderer.emit_started(p.as_str()),
            ProgressEvent::Resolving(c) => match c {
                Some(c) => self.renderer.emit_resolving(Some(c.as_str()), None),
                None => self.renderer.emit_resolving(None, None),
            },
            ProgressEvent::Fetching(c) => self.renderer.emit_fetching(c.as_str(), None),
            ProgressEvent::Fetched(c) => self.renderer.emit_fetched(c.as_str()),
            ProgressEvent::Cached(c) => self.renderer.emit_cached(c.as_str()),
            ProgressEvent::WritingLockfile => self.renderer.emit_writing_lockfile(),
            ProgressEvent::Completed(p) => self.renderer.emit_completed(p.as_str()),
            ProgressEvent::Flush => {
                assert(self.text() =~= old(self).text() + Seq::empty());
            },
        }
        proof {
            if let Some(m) = event_model(*event) {
                assert(json::one_line(ndjson::event_object(m, at)));
            }
        }
    }

    /// Moves the clock. A pinned timestamp stays.
    pub fn set_now(&mut self, now: String)
        ensures
            final(self).inner().out == old(self).inner().out,
            final(self).inner().clock == old(self).inner().clock,
            final(self).inner().at() == (if old(self).inner().clock is Some {
                old(self).inner().at()
            } else {
                now@
            }),
    {
        self.renderer.set_now(now);
    }
}

impl ProgressSink for NullSink {
    open spec fn text(&self) -> Seq<char> {
        Seq::empty()
    }

    open spec fn line(&self, e: ndjson::EventModel) -> Seq<char> {
        Seq::empty()
    }

    fn started(&mut self, phase: &str) {
    }

    fn resolving(&mut self, coord: Option<&str>, progress: Option<&str>) {
    }

    fn fetching(&mut self, coord: &str, progress: Option<&str>) {
    }

    fn fetched(&mut self, coord: &str) {
    }

    fn cached(&mut self, coord: &str) {
    }

    fn writing_lockfile(&mut self) {
    }

    fn completed(&mut self, phase: &str) {
    }

    fn flush(&mut self) {
    }
}

impl ProgressSink for HumanSink {
    open spec fn text(&self) -> Seq<char> {
        self.err@
    }

    open spec fn line(&self, e: ndjson::EventModel) -> Seq<char> {
        Seq::empty()
    }

    fn started(&mut self, phase: &str) {
    }

    fn resolving(&mut self, coord: Option<&str>, progress: Option<&str>) {
    }

    fn fetching(&mut self, coord: &str, progress: Option<&str>) {
    }

    fn fetched(&mut self, coord: &str) {
    }

    fn cached(&mut self, coord: &str) {
    }

    fn writing_lockfile(&mut self) {
    }

    fn completed(&mut self, phase: &str) {
    }

    fn flush(&mut self) {
    }
}

impl ProgressSink for NdjsonSink {
    open spec fn text(&self) -> Seq<char> {
        self.inner().out@
    }

    open spec fn line(&self, e: ndjson::EventModel) -> Seq<char> {
        ndjson::event_object(e, self.inner().at()) + "\n"@
    }

    fn started(&mut self, phase: &str) {
        self.renderer.emit_started(phase);
    }

    fn resolving(&mut self, coord: Option<&str>, progress: Option<&str>) {
        self.renderer.emit_resolving(coord, progress);
    }

    fn fetching(&mut self, coord: &str, progress: Option<&str>) {
        self.renderer.emit_fetching(coord, progress);
    }

    fn fetched(&mut self, coord: &str) {
        self.renderer.emit_fetched(coord);
    }

    fn cached(&mut self, coord: &str) {
        self.renderer.emit_cached(coord);
    }

    fn writing_lockfile(&mut self) {
        self.renderer.emit_writing_lockfile();
    }

    fn completed(&mut self, phase: &str) {
        self.renderer.emit_completed(phase);
    }

    fn flush(&mut self) {
    }
}

/// The sink of an invocation.
#[derive(Debug)]
pub enum Sink {
    Null(NullSink),
    Human(HumanSink),
    Ndjson(NdjsonSink),
}

impl Sink {
    /// What was written so far.
    pub open spec fn text(&self) -> Seq<char> {
        match self {
            Sink::Null(s) => s.text(),
            Sink::Human(s) => s.text(),
            Sink::Ndjson(s) => s.text(),
        }
    }

    /// What this sink writes of an event.
    pub open spec fn line(&self, e: ProgressEvent) -> Seq<char> {
        match event_model(e) {
            Some(m) => match self {
                Sink::Null(s) => s.line(m),
                Sink::Human(s) => s.line(m),
                Sink::Ndjson(s) => s.line(m),
            },
            None => Seq::empty(),
        }
    }

    /// Hands an event over.
    pub fn play(&mut self, event: &ProgressEvent)
        ensures
            final(self).text() == old(self).text() + old(self).line(*event),
            forall|e: ProgressEvent| final(self).line(e) == old(self).line(e),
            (*old(self) is Ndjson) == (*final(self) is Ndjson),
            *old(self) is Ndjson ==> tells(old(self).text(), *event, final(self).text()),
    {
        match self {
            Sink::Null(s) => hand_over(s, event),
            Sink::Human(s) => hand_over(s, event),
            Sink::Ndjson(s) => s.tell(event),
        }
    }
}

/// Hands an event to a sink.
pub fn hand_over<S: ProgressSink>(sink: &mut S, event: &ProgressEvent)
    ensures
        final(sink).text() == old(sink).text() + (match event_model(*event) {
            Some(m) => old(sink).line(m),
            None => Seq::empty(),
        }),
        forall|e: ndjson::EventModel| final(sink).line(e) == old(sink).line(e),
{
    match event {
        ProgressEvent::Started(p) => sink.started(p.as_str()),
        ProgressEvent::Resolving(c) => match c {
            Some(c) => sink.resolving(Some(c.as_str()), None),
            None => sink.resolving(None, None),
        },
        ProgressEvent::Fetching(c) => sink.fetching(c.as_str(), None),
        ProgressEvent::Fetched(c) => sink.fetched(c.as_str()),
        ProgressEvent::Cached(c) => sink.cached(c.as_str()),
        ProgressEvent::WritingLockfile => sink.writing_lockfile(),
        ProgressEvent::Completed(p) => sink.completed(p.as_str()),
        ProgressEvent::Flush => {
            sink.flush();
            assert(sink.text() =~= old(sink).text() + Seq::empty());
        },
    }
}

/// The sink of a format: lines for NDJSON, nothing otherwise.
pub fn make_progress_sink(format: OutputFormat, now: String) -> (r: Sink)
    ensures
        r.text() == Seq::<char>::empty(),
        match r {
            Sink::Ndjson(s) => format == OutputFormat::Ndjson && s.inner().clock is None
                && s.inner().at() == now@,
            Sink::Null(_) => format == OutputFormat::Json,
            Sink::Human(_) => format == OutputFormat::Human,
        },
{
    match format {
        OutputFormat::Ndjson => Sink::Ndjson(NdjsonSink::new(now)),
        OutputFormat::Json => Sink::Null(NullSink),
        OutputFormat::Human => Sink::Human(HumanSink::with_stderr(String::new())),
    }
}

// ---------------------------------------------------------------------------
// Laws
// ---------------------------------------------------------------------------

/// Only NDJSON output shows progress: for the other formats nothing is ever written.
pub proof fn progress_is_ndjson_only(s: Sink, e: ProgressEvent)
    requires
        s is Null || s is Human,
    ensures
        s.line(e) == Seq::<char>::empty(),
{
}

/// How many of the first `k` things told are events.
pub open spec fn events_among(told: Seq<ProgressEvent>, k: nat) -> nat
    decreases k,
{
    if k == 0 {
        0
    } else {
        events_among(told, (k - 1) as nat) + (if event_model(told[k - 1]) is Some {
            1nat
        } else {
            0nat
        })
    }
}

/// Every event is one line: where each thing told turns the sink's text into the next, the
/// last text has one more line break than the first for each event.
pub proof fn one_line_for_each_event(texts: Seq<Seq<char>>, told: Seq<ProgressEvent>)
    requires
        texts.len() == told.len() + 1,
        forall|k: int|
            0 <= k < told.len() ==> tells(texts[k], #[trigger] told[k], texts[k + 1]),
    ensures
        json::breaks(texts.last()) == json::breaks(texts[0]) + events_among(told, told.len()),
    decreases told.len(),
{
    if told.len() > 0 {
        let n = told.len() as int - 1;
        let earlier = told.drop_last();
        let before = texts.drop_last();
        assert forall|k: int| 0 <= k < earlier.len() implies tells(
            before[k],
            #[trigger] earlier[k],
            before[k + 1],
        ) by {
            assert(tells(texts[k], told[k], texts[k + 1]));
        }
        one_line_for_each_event(before, earlier);
        events_of_a_prefix(told, earlier.len());
        assert(tells(texts[n], told[n], texts[n + 1]));
        if event_model(told[n]) is Some {
            let object = choose|object: Seq<char>| #[trigger] json::one_line(object) && texts[n + 1]
                == texts[n] + object + "\n"@;
            reveal_strlit("\n");
            json::one_line_has_no_break(object);
            json::breaks_add_up(texts[n], object);
            json::breaks_add_up(texts[n] + object, "\n"@);
            assert("\n"@.drop_last() =~= Seq::<char>::empty());
            reveal_with_fuel(json::breaks, 2);
        }
    }
}

/// What comes later does not count among the first `k`.
proof fn events_of_a_prefix(told: Seq<ProgressEvent>, k: nat)
    requires
        k < told.len(),
    ensures
        events_among(told.drop_last(), k) == events_among(told, k),
    decreases k,
{
    if k > 0 {
        events_of_a_prefix(told, (k - 1) as nat);
    }
}

/// What is told of is what happens: every event is told under its own name and with its own
/// coordinates, and a flush is no event.
pub proof fn events_are_told_by_their_names(e: ProgressEvent)
    ensures
        event_model(e) is None <==> e is Flush,
        e matches ProgressEvent::Started(p) ==> event_model(e)->0.event == "started"@,
        e matches ProgressEvent::Completed(p) ==> event_model(e)->0.event == "completed"@,
        e matches ProgressEvent::Resolving(c) ==> event_model(e)->0.event == "resolving"@
            && event_model(e)->0.coord == crate::text::opt_text(c),
        e matches ProgressEvent::Fetching(c) ==> event_model(e)->0.event == "fetching"@
            && event_model(e)->0.coord == Some(c@),
        e matches ProgressEvent::Fetched(c) ==> event_model(e)->0.event == "fetched"@
            && event_model(e)->0.coord == Some(c@),
        e matches ProgressEvent::Cached(c) ==> event_model(e)->0.event == "cached"@
            && event_model(e)->0.coord == Some(c@),
        e is WritingLockfile ==> event_model(e)->0.event == "writing-lockfile"@,
        e is Started || e is Resolving || e is WritingLockfile || e is Completed || e is Fetching
            || e is Fetched || e is Cached ==> event_model(e) is Some,
{
}

/// Progress is told in the form of the output.
pub proof fn progress_has_the_form_of_the_output(format: OutputFormat, now: String, r: Sink)
    requires
        call_ensures(make_progress_sink, (format, now), r),
    ensures
        r is Ndjson <==> format is Ndjson,
        r is Human <==> format is Human,
        r is Null <==> format is Json,
        r.text().len() == 0,
{
}

} // verus!
