//! The NDJSON renderer: one event on each line.

use vstd::prelude::*;
use vstd::string::*;

use super::json;
use crate::text;

verus! {

/// Renders one compact JSON object on each line.
#[derive(Debug)]
pub struct NdjsonRenderer {
    /// What was written so far.
    pub out: String,
    /// The timestamp of every line, where it is pinned.
    pub clock: Option<String>,
    /// The timestamp of the next line, where it is not.
    pub wall: String,
}

/// One progress event.
pub struct EventModel {
    pub event: Seq<char>,
    pub coord: Option<Seq<char>>,
    pub phase: Option<Seq<char>>,
    /// A percentage, as a JSON number.
    pub progress: Option<Seq<char>>,
}

/// `,"<key>":<value>`, or nothing.
pub open spec fn member(key: Seq<char>, value: Option<Seq<char>>) -> Seq<char> {
    match value {
        Some(v) => key + v,
        None => Seq::empty(),
    }
}

/// The JSON form of an optional text.
pub open spec fn opt_json(o: Option<Seq<char>>) -> Option<Seq<char>> {
    match o {
        Some(s) => Some(json::json_text(s)),
        None => None,
    }
}

/// The object of a progress event: `event` and `timestamp` always, the others where they are
/// known, in this order.
pub open spec fn event_object(e: EventModel, at: Seq<char>) -> Seq<char> {
    "{\"event\":\""@ + e.event + "\",\"timestamp\":"@ + json::json_text(at) + member(
        ",\"coord\":"@,
        opt_json(e.coord),
    ) + member(",\"phase\":"@, opt_json(e.phase)) + member(",\"progress\":"@, e.progress) + "}"@
}

/// The object that carries a report.
pub open spec fn result_object(payload: Seq<char>, at: Seq<char>) -> Seq<char> {
    "{\"event\":\"result\",\"timestamp\":"@ + json::json_text(at) + ",\"payload\":"@ + payload
        + "}"@
}

/// The object that reports an error.
pub open spec fn error_object(message: Seq<char>, at: Seq<char>) -> Seq<char> {
    "{\"event\":\"error\",\"timestamp\":"@ + json::json_text(at) + ",\"payload\":{\"message\":"@
        + json::json_text(message) + "}}"@
}

/// The `phase` member of a run boundary: only the fine-grained phases have one.
pub open spec fn schema_phase(phase: Seq<char>) -> Option<Seq<char>> {
    if phase == "resolve"@ || phase == "fetch"@ || phase == "lock-write"@ || phase == "pour"@ {
        Some(phase)
    } else {
        None
    }
}

/// The event of a run's start.
pub open spec fn started_event(phase: Seq<char>) -> EventModel {
    EventModel {
        event: "started"@,
        coord: None,
        phase: schema_phase(phase),
        progress: None,
    }
}

/// The event of a run's end.
pub open spec fn completed_event(phase: Seq<char>) -> EventModel {
    EventModel {
        event: "completed"@,
        coord: None,
        phase: schema_phase(phase),
        progress: None,
    }
}

/// The event of the resolver's progress.
pub open spec fn resolving_event(coord: Option<Seq<char>>, progress: Option<Seq<char>>) -> EventModel {
    EventModel { event: "resolving"@, coord, phase: Some("resolve"@), progress }
}

/// The event of a fetch that starts.
pub open spec fn fetching_event(coord: Seq<char>, progress: Option<Seq<char>>) -> EventModel {
    EventModel { event: "fetching"@, coord: Some(coord), phase: Some("fetch"@), progress }
}

/// The event of a fetch that ended.
pub open spec fn fetched_event(coord: Seq<char>) -> EventModel {
    EventModel {
        event: "fetched"@,
        coord: Some(coord),
        phase: Some("fetch"@),
        progress: None,
    }
}

/// The event of an artifact that was in the cache.
pub open spec fn cached_event(coord: Seq<char>) -> EventModel {
    EventModel {
        event: "cached"@,
        coord: Some(coord),
        phase: Some("fetch"@),
        progress: None,
    }
}

/// The event of the lockfile's writing.
pub open spec fn writing_lockfile_event() -> EventModel {
    EventModel {
        event: "writing-lockfile"@,
        coord: None,
        phase: Some("lock-write"@),
        progress: None,
    }
}

/// The contents of an optional text.
pub open spec fn opt_str(o: Option<&str>) -> Option<Seq<char>> {
    match o {
        Some(s) => Some(s@),
        None => None,
    }
}

/// Whether an optional text stays on one line.
pub open spec fn opt_one_line(o: Option<&str>) -> bool {
    o matches Some(s) ==> json::one_line(s@)
}

/// Whether `b` is `a` and one more line, which holds `object`; nothing else changed.
pub open spec fn adds_line(a: NdjsonRenderer, b: NdjsonRenderer, object: Seq<char>) -> bool {
    b.clock == a.clock && b.wall == a.wall && b.out@ == a.out@ + object + "\n"@
}

/// The `phase` member of a run boundary.
pub fn schema_phase_for(phase: &str) -> (r: Option<&'static str>)
    ensures
        opt_str(r) == schema_phase(phase@),
        opt_one_line(r),
{
    proof {
        reveal_strlit("resolve");
        reveal_strlit("fetch");
        reveal_strlit("lock-write");
        reveal_strlit("pour");
    }
    if text::same_text(phase, "resolve") {
        Some("resolve")
    } else if text::same_text(phase, "fetch") {
        Some("fetch")
    } else if text::same_text(phase, "lock-write") {
        Some("lock-write")
    } else if text::same_text(phase, "pour") {
        Some("pour")
    } else {
        None
    }
}

impl NdjsonRenderer {
    /// A renderer that has written nothing yet; `now` is the timestamp of the next line.
    pub fn new(now: String) -> (r: NdjsonRenderer)
        ensures
            r.out@ == Seq::<char>::empty(),
            r.clock is None,
            r.at() == now@,
    {
        NdjsonRenderer { out: String::new(), clock: None, wall: now }
    }

    /// A renderer whose lines all have the timestamp `ts`.
    pub fn with_fixed_timestamp(ts: String) -> (r: NdjsonRenderer)
        ensures
            r.out@ == Seq::<char>::empty(),
            r.clock is Some,
            r.at() == ts@,
    {
        NdjsonRenderer { out: String::new(), clock: Some(ts), wall: String::new() }
    }

    /// The timestamp of the next line.
    pub open spec fn at(&self) -> Seq<char> {
        match self.clock {
            Some(s) => s@,
            None => self.wall@,
        }
    }

    /// Moves the clock. A pinned timestamp stays.
    pub fn set_now(&mut self, now: String)
        ensures
            final(self).out == old(self).out,
            final(self).clock == old(self).clock,
            final(self).at() == (if old(self).clock is Some {
                old(self).at()
            } else {
                now@
            }),
    {
        self.wall = now;
    }

    /// The timestamp of the next line, as JSON.
    fn stamp(&self) -> (r: String)
        ensures
            r@ == json::json_text(self.at()),
            json::one_line(r@),
    {
        match &self.clock {
            Some(s) => json::json_string(s.as_str()),
            None => json::json_string(self.wall.as_str()),
        }
    }

    /// Writes one progress event.
    fn emit(
        &mut self,
        event: &str,
        coord: Option<&str>,
        phase: Option<&str>,
        progress: Option<&str>,
    )
        requires
            json::one_line(event@),
        ensures
            adds_line(
                *old(self),
                *final(self),
                event_object(
                    (EventModel {
                        event: event@,
                        coord: opt_str(coord),
                        phase: opt_str(phase),
                        progress: opt_str(progress),
                    }),
                    old(self).at(),
                ),
            ),
            opt_one_line(progress) ==> json::one_line(
                event_object(
                    (EventModel {
                        event: event@,
                        coord: opt_str(coord),
                        phase: opt_str(phase),
                        progress: opt_str(progress),
                    }),
                    old(self).at(),
                ),
            ),
    {
        proof {
            reveal_strlit("{\"event\":\"");
            reveal_strlit("\",\"timestamp\":");
            reveal_strlit(",\"coord\":");
            reveal_strlit(",\"phase\":");
            reveal_strlit(",\"progress\":");
            reveal_strlit("}");
        }
        let at = self.stamp();
        let mut line = "{\"event\":\"".to_owned();
        line.append(event);
        line.append("\",\"timestamp\":");
        line.append(at.as_str());
        let ghost l0 = line@;
        assert(json::one_line(l0));
        match coord {
            Some(c) => {
                let q = json::json_string(c);
                line.append(",\"coord\":");
                line.append(q.as_str());
            },
            None => {},
        }
        assert(line@ =~= l0 + member(",\"coord\":"@, opt_json(opt_str(coord))));
        assert(json::one_line(line@));
        let ghost l1 = line@;
        match phase {
            Some(p) => {
                let q = json::json_string(p);
                line.append(",\"phase\":");
                line.append(q.as_str());
            },
            None => {},
        }
        assert(line@ =~= l1 + member(",\"phase\":"@, opt_json(opt_str(phase))));
        assert(json::one_line(line@));
        let ghost l2 = line@;
        match progress {
            Some(p) => {
                line.append(",\"progress\":");
                line.append(p);
            },
            None => {},
        }
        assert(line@ =~= l2 + member(",\"progress\":"@, opt_str(progress)));
        assert(opt_one_line(progress) ==> json::one_line(line@));
        line.append("}");
        self.out.append(line.as_str());
        self.out.append("\n");
    }

    /// Writes the event of a run's start.
    pub fn emit_started(&mut self, phase: &str)
        ensures
            adds_line(
                *old(self),
                *final(self),
                event_object(started_event(phase@), old(self).at()),
            ),
            json::one_line(event_object(started_event(phase@), old(self).at())),
    {
        proof {
            reveal_strlit("started");
        }
        let p = schema_phase_for(phase);
        self.emit("started", None, p, None);
    }

    /// Writes the event of the resolver's progress.
    pub fn emit_resolving(&mut self, coord: Option<&str>, progress: Option<&str>)
        ensures
            adds_line(
                *old(self),
                *final(self),
                event_object(resolving_event(opt_str(coord), opt_str(progress)), old(self).at()),
            ),
            opt_one_line(progress) ==> json::one_line(
                event_object(resolving_event(opt_str(coord), opt_str(progress)), old(self).at()),
            ),
    {
        proof {
            reveal_strlit("resolving");
        }
        self.emit("resolving", coord, Some("resolve"), progress);
    }

    /// Writes the event of a fetch that starts.
    pub fn emit_fetching(&mut self, coord: &str, progress: Option<&str>)
        ensures
            adds_line(
                *old(self),
                *final(self),
                event_object(fetching_event(coord@, opt_str(progress)), old(self).at()),
            ),
            opt_one_line(progress) ==> json::one_line(
                event_object(fetching_event(coord@, opt_str(progress)), old(self).at()),
            ),
    {
        proof {
            reveal_strlit("fetching");
        }
        self.emit("fetching", Some(coord), Some("fetch"), progress);
    }

    /// Writes the event of a fetch that ended.
    pub fn emit_fetched(&mut self, coord: &str)
        ensures
            adds_line(
                *old(self),
                *final(self),
                event_object(fetched_event(coord@), old(self).at()),
            ),
            json::one_line(event_object(fetched_event(coord@), old(self).at())),
    {
        proof {
            reveal_strlit("fetched");
        }
        self.emit("fetched", Some(coord), Some("fetch"), None);
    }

    /// Writes the event of an artifact that was in the cache.
    pub fn emit_cached(&mut self, coord: &str)
        ensures
            adds_line(
                *old(self),
                *final(self),
                event_object(cached_event(coord@), old(self).at()),
            ),
            json::one_line(event_object(cached_event(coord@), old(self).at())),
    {
        proof {
            reveal_strlit("cached");
        }
        self.emit("cached", Some(coord), Some("fetch"), None);
    }

    /// Writes the event of the lockfile's writing.
    pub fn emit_writing_lockfile(&mut self)
        ensures
            adds_line(
                *old(self),
                *final(self),
                event_object(writing_lockfile_event(), old(self).at()),
            ),
            json::one_line(event_object(writing_lockfile_event(), old(self).at())),
    {
        proof {
            reveal_strlit("writing-lockfile");
        }
        self.emit("writing-lockfile", None, Some("lock-write"), None);
    }

    /// Writes the event of a run's end.
    pub fn emit_completed(&mut self, phase: &str)
        ensures
            adds_line(
                *old(self),
                *final(self),
                event_object(completed_event(phase@), old(self).at()),
            ),
            json::one_line(event_object(completed_event(phase@), old(self).at())),
    {
        proof {
            reveal_strlit("completed");
        }
        let p = schema_phase_for(phase);
        self.emit("completed", None, p, None);
    }

    /// Writes the line that carries a report; `payload` is its compact JSON form.
    pub fn render_result(&mut self, payload: &str)
        ensures
            adds_line(*old(self), *final(self), result_object(payload@, old(self).at())),
            json::one_line(payload@) ==> json::one_line(
                result_object(payload@, old(self).at()),
            ),
    {
        proof {
            reveal_strlit("{\"event\":\"result\",\"timestamp\":");
            reveal_strlit(",\"payload\":");
            reveal_strlit("}");
        }
        let at = self.stamp();
        let mut line = "{\"event\":\"result\",\"timestamp\":".to_owned();
        line.append(at.as_str());
        line.append(",\"payload\":");
        line.append(payload);
        line.append("}");
        self.out.append(line.as_str());
        self.out.append("\n");
    }

    /// Writes the line that reports an error.
    pub fn render_error(&mut self, message: &str)
        ensures
            adds_line(*old(self), *final(self), error_object(message@, old(self).at())),
            json::one_line(error_object(message@, old(self).at())),
    {
        proof {
            reveal_strlit("{\"event\":\"error\",\"timestamp\":");
            reveal_strlit(",\"payload\":{\"message\":");
            reveal_strlit("}}");
        }
        let at = self.stamp();
        let quoted = json::json_string(message);
        let mut line = "{\"event\":\"error\",\"timestamp\":".to_owned();
        line.append(at.as_str());
        line.append(",\"payload\":{\"message\":");
        line.append(quoted.as_str());
        line.append("}}");
        self.out.append(line.as_str());
        self.out.append("\n");
    }
}

/// Only the phases of the schema are named; any other is left out.
pub proof fn only_known_phases_are_named(phase: Seq<char>)
    ensures
        schema_phase(phase) matches Some(p) ==> p == phase,
        schema_phase(phase) is Some <==> (phase == "resolve"@ || phase == "fetch"@ || phase
            == "lock-write"@ || phase == "pour"@),
{
}

/// Every event has its own name, its own phase and, where it is about an artifact, its
/// coordinates.
pub proof fn events_tell_what_they_are(
    phase: Seq<char>,
    coord: Seq<char>,
    named: Option<Seq<char>>,
    progress: Option<Seq<char>>,
)
    ensures
        started_event(phase).event == "started"@ && started_event(phase).coord is None
            && started_event(phase).phase == schema_phase(phase) && started_event(phase).progress
            is None,
        completed_event(phase).event == "completed"@ && completed_event(phase).coord is None
            && completed_event(phase).phase == schema_phase(phase)
            && completed_event(phase).progress is None,
        resolving_event(named, progress).event == "resolving"@ && resolving_event(
            named,
            progress,
        ).coord == named && resolving_event(named, progress).phase == Some("resolve"@)
            && resolving_event(named, progress).progress == progress,
        fetching_event(coord, progress).event == "fetching"@ && fetching_event(
            coord,
            progress,
        ).coord == Some(coord) && fetching_event(coord, progress).phase == Some("fetch"@)
            && fetching_event(coord, progress).progress == progress,
        fetched_event(coord).event == "fetched"@ && fetched_event(coord).coord == Some(coord)
            && fetched_event(coord).phase == Some("fetch"@) && fetched_event(coord).progress
            is None,
        cached_event(coord).event == "cached"@ && cached_event(coord).coord == Some(coord)
            && cached_event(coord).phase == Some("fetch"@) && cached_event(coord).progress is None,
        writing_lockfile_event().event == "writing-lockfile"@ && writing_lockfile_event().coord
            is None && writing_lockfile_event().phase == Some("lock-write"@)
            && writing_lockfile_event().progress is None,
{
}

/// The line of an event is an object with its name and its time, and with its coordinates, its
/// phase and its progress where it has them.
pub proof fn event_lines_hold_what_the_event_tells(
    e: EventModel,
    at: Seq<char>,
    coord: Seq<char>,
    phase: Seq<char>,
    progress: Seq<char>,
)
    ensures
        ({
            let front = "{\"event\":\""@ + e.event + "\",\"timestamp\":"@ + json::json_text(at);
            let c = ",\"coord\":"@ + json::json_text(coord);
            let p = ",\"phase\":"@ + json::json_text(phase);
            let g = ",\"progress\":"@ + progress;
            &&& e.coord is None && e.phase is None && e.progress is None ==> event_object(e, at)
                == front + "}"@
            &&& e.coord is None && e.phase == Some(phase) && e.progress is None ==> event_object(
                e,
                at,
            ) == front + p + "}"@
            &&& e.coord == Some(coord) && e.phase == Some(phase) && e.progress is None
                ==> event_object(e, at) == front + c + p + "}"@
            &&& e.coord == Some(coord) && e.phase == Some(phase) && e.progress == Some(progress)
                ==> event_object(e, at) == front + c + p + g + "}"@
            &&& e.coord is None && e.phase == Some(phase) && e.progress == Some(progress)
                ==> event_object(e, at) == front + p + g + "}"@
        }),
{
    let front = "{\"event\":\""@ + e.event + "\",\"timestamp\":"@ + json::json_text(at);
    let c = member(",\"coord\":"@, opt_json(e.coord));
    let p = member(",\"phase\":"@, opt_json(e.phase));
    let g = member(",\"progress\":"@, e.progress);
    assert(event_object(e, at) == front + c + p + g + "}"@);
    assert(front + Seq::<char>::empty() =~= front);
    assert(front + p + Seq::<char>::empty() =~= front + p);
    assert(front + c + p + Seq::<char>::empty() =~= front + c + p);
}

/// The line of a result holds its document and the line of an error its message, each with its
/// time.
pub proof fn last_line_holds_what_came_out(payload: Seq<char>, message: Seq<char>, at: Seq<char>)
    ensures
        ("{\"event\":\"result\",\"timestamp\":"@ + json::json_text(at) + ",\"payload\":"@
            + payload).is_prefix_of(result_object(payload, at)),
        result_object(payload, at).last() == '}',
        ("{\"event\":\"error\",\"timestamp\":"@ + json::json_text(at)
            + ",\"payload\":{\"message\":"@ + json::json_text(message)).is_prefix_of(
            error_object(message, at),
        ),
        error_object(message, at).last() == '}',
{
    reveal_strlit("}");
    reveal_strlit("}}");
}

} // verus!
