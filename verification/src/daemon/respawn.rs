//! Running one action on the daemon, with one new attempt after a crash.
//!
//! A crash of the daemon in the middle of an action is answered once: a fresh daemon is
//! started and the same action is sent again, and a second crash is reported as such. An
//! action that must not be repeated gets no second attempt: its crash is an error of the
//! daemon like any other.

use vstd::prelude::*;
use vstd::string::*;

use crate::daemon::launcher;
use crate::daemon::launcher::LauncherError;
use crate::text;

verus! {

/// The error code of a daemon crash.
pub const DAEMON_CRASHED_CODE: &'static str = "BAR-DAEMON-CRASHED";

/// How long one attempt may take, in seconds.
pub const ACTION_DEADLINE_SECS: u64 = 600;

/// The result of an action that ran to its end.
#[derive(Debug)]
pub struct ActionResult {
    pub action_id: String,
    pub exit_code: i32,
    pub status: i32,
    pub failure_message: String,
    /// The code of the error that the daemon attached, if any.
    pub error_code: Option<String>,
}

/// What happens during an attempt.
#[derive(Debug)]
pub enum AttemptEvent {
    /// Connecting failed.
    ConnectFailed(String),
    /// Sending the request failed.
    SubmitFailed(String),
    /// The deadline passed.
    DeadlinePassed,
    /// The channel closed.
    Closed,
    /// The channel failed.
    ChannelFailed(String),
    /// The daemon reports progress.
    Progress(String),
    /// The daemon forwards output.
    Output,
    /// The action ended.
    Ended(ActionResult),
    /// The daemon reports an error.
    Error { code: String, message: String },
}

/// Why an attempt gave no result.
#[derive(Debug)]
pub enum AttemptError {
    /// The daemon crashed; this is what it was reported with.
    Crashed { message: String },
    Connect { source: String },
    Ipc { detail: String },
    DaemonProtocolError { code: String, message: String },
    PrematureClose,
}

/// What an attempt gave.
#[derive(Debug)]
pub struct AttemptOutcome {
    pub result: ActionResult,
    /// The progress that was reported, in its order.
    pub progress: Vec<String>,
}

/// Whether an attempt goes on.
#[derive(Debug)]
pub enum AttemptStep {
    /// It goes on, with the progress so far.
    Continue(Vec<String>),
    /// It ended.
    End(Result<AttemptOutcome, AttemptError>),
}

/// Whether `s` is what an attempt does at `event` with the progress `progress`.
pub open spec fn is_attempt_step(progress: Vec<String>, event: AttemptEvent, s: AttemptStep) -> bool {
    match event {
        AttemptEvent::Progress(p) => s matches AttemptStep::Continue(next) && next@
            == progress@.push(p),
        AttemptEvent::Output => s == AttemptStep::Continue(progress),
        AttemptEvent::Ended(result) => s == AttemptStep::End(
            Ok(AttemptOutcome { result, progress }),
        ),
        AttemptEvent::ConnectFailed(source) => s == AttemptStep::End(
            Err(AttemptError::Connect { source }),
        ),
        AttemptEvent::SubmitFailed(e) => s matches AttemptStep::End(Err(AttemptError::Ipc { detail }))
            && detail@ == "submit_action: "@ + e@,
        AttemptEvent::DeadlinePassed => s matches AttemptStep::End(
            Err(AttemptError::Ipc { detail }),
        ) && detail@ == "action exceeded 600s deadline"@,
        AttemptEvent::Closed => s == AttemptStep::End(Err(AttemptError::PrematureClose)),
        AttemptEvent::ChannelFailed(e) => s matches AttemptStep::End(
            Err(AttemptError::Ipc { detail }),
        ) && detail@ == "next_event: "@ + e@,
        AttemptEvent::Error { code, message } => if code@ == DAEMON_CRASHED_CODE@ {
            s == AttemptStep::End(Err(AttemptError::Crashed { message }))
        } else {
            s == AttemptStep::End(Err(AttemptError::DaemonProtocolError { code, message }))
        },
    }
}

/// `head` and `tail` as one text.
fn labelled(head: &str, tail: &str) -> (r: String)
    ensures
        r@ == head@ + tail@,
{
    let mut out = head.to_owned();
    out.append(tail);
    out
}

/// What an attempt does at an event.
pub fn attempt_step(progress: Vec<String>, event: AttemptEvent) -> (r: AttemptStep)
    ensures
        is_attempt_step(progress, event, r),
{
    match event {
        AttemptEvent::Progress(p) => {
            let mut next = progress;
            next.push(p);
            AttemptStep::Continue(next)
        },
        AttemptEvent::Output => AttemptStep::Continue(progress),
        AttemptEvent::Ended(result) => AttemptStep::End(Ok(AttemptOutcome { result, progress })),
        AttemptEvent::ConnectFailed(source) => AttemptStep::End(
            Err(AttemptError::Connect { source }),
        ),
        AttemptEvent::SubmitFailed(e) => AttemptStep::End(
            Err(AttemptError::Ipc { detail: labelled("submit_action: ", e.as_str()) }),
        ),
        AttemptEvent::DeadlinePassed => AttemptStep::End(
            Err(AttemptError::Ipc { detail: "action exceeded 600s deadline".to_owned() }),
        ),
        AttemptEvent::Closed => AttemptStep::End(Err(AttemptError::PrematureClose)),
        AttemptEvent::ChannelFailed(e) => AttemptStep::End(
            Err(AttemptError::Ipc { detail: labelled("next_event: ", e.as_str()) }),
        ),
        AttemptEvent::Error { code, message } => {
            if text::same_text(code.as_str(), DAEMON_CRASHED_CODE) {
                AttemptStep::End(Err(AttemptError::Crashed { message }))
            } else {
                AttemptStep::End(Err(AttemptError::DaemonProtocolError { code, message }))
            }
        },
    }
}

/// Why an action could not be run.
#[derive(Debug)]
pub enum RespawnError {
    /// The daemon could not be started.
    Launcher(LauncherError),
    /// The channel failed.
    Ipc { detail: String },
    /// Connecting failed.
    Connect { socket: String, source: String },
    /// The daemon crashed, and again at the second attempt.
    PersistentCrash,
    /// The daemon reported an error, or crashed during an action that is not repeated.
    DaemonProtocolError { code: String, message: String },
    /// The channel closed before the action ended.
    PrematureClose,
}

/// What an action came to.
#[derive(Debug)]
pub struct RespawnOutcome {
    pub result: ActionResult,
    /// How often the daemon was started anew for this action.
    pub respawns: u32,
    pub progress: Vec<String>,
}

/// What happens after an attempt.
#[derive(Debug)]
pub enum RespawnStep {
    /// The action is over.
    Finish(Result<RespawnOutcome, RespawnError>),
    /// Start a fresh daemon and send the action again.
    Respawn,
}

/// How often an action may be sent again.
pub open spec fn retry_budget(retryable: bool) -> u32 {
    if retryable {
        1
    } else {
        0
    }
}

/// Whether `s` is what happens after attempt number `attempt` (counted from 0) ended.
pub open spec fn is_respawn_step(
    attempt: u32,
    retryable: bool,
    socket: Seq<char>,
    ended: Result<AttemptOutcome, AttemptError>,
    s: RespawnStep,
) -> bool {
    match ended {
        Ok(o) => s == RespawnStep::Finish(
            Ok(RespawnOutcome { result: o.result, respawns: attempt, progress: o.progress }),
        ),
        Err(AttemptError::Crashed { message }) => if attempt < retry_budget(retryable) {
            s is Respawn
        } else if attempt > 0 {
            s == RespawnStep::Finish(Err(RespawnError::PersistentCrash))
        } else {
            s matches RespawnStep::Finish(
                Err(RespawnError::DaemonProtocolError { code, message: m }),
            ) && code@ == DAEMON_CRASHED_CODE@ && m == message
        },
        Err(AttemptError::Connect { source }) => s matches RespawnStep::Finish(
            Err(RespawnError::Connect { socket: at, source: e }),
        ) && at@ == socket && e == source,
        Err(AttemptError::Ipc { detail }) => s == RespawnStep::Finish(
            Err(RespawnError::Ipc { detail }),
        ),
        Err(AttemptError::DaemonProtocolError { code, message }) => s == RespawnStep::Finish(
            Err(RespawnError::DaemonProtocolError { code, message }),
        ),
        Err(AttemptError::PrematureClose) => s == RespawnStep::Finish(
            Err(RespawnError::PrematureClose),
        ),
    }
}

/// What happens after attempt number `attempt` (counted from 0) on the daemon at `socket`
/// ended.
pub fn submit_with_respawn(
    attempt: u32,
    retryable: bool,
    socket: &str,
    ended: Result<AttemptOutcome, AttemptError>,
) -> (r: RespawnStep)
    ensures
        is_respawn_step(attempt, retryable, socket@, ended, r),
{
    match ended {
        Ok(o) => RespawnStep::Finish(
            Ok(RespawnOutcome { result: o.result, respawns: attempt, progress: o.progress }),
        ),
        Err(AttemptError::Crashed { message }) => {
            if attempt > 0 {
                RespawnStep::Finish(Err(RespawnError::PersistentCrash))
            } else if retryable {
                RespawnStep::Respawn
            } else {
                RespawnStep::Finish(
                    Err(
                        RespawnError::DaemonProtocolError {
                            code: DAEMON_CRASHED_CODE.to_owned(),
                            message,
                        },
                    ),
                )
            }
        },
        Err(AttemptError::Connect { source }) => RespawnStep::Finish(
            Err(RespawnError::Connect { socket: socket.to_owned(), source }),
        ),
        Err(AttemptError::Ipc { detail }) => RespawnStep::Finish(Err(RespawnError::Ipc { detail })),
        Err(AttemptError::DaemonProtocolError { code, message }) => RespawnStep::Finish(
            Err(RespawnError::DaemonProtocolError { code, message }),
        ),
        Err(AttemptError::PrematureClose) => RespawnStep::Finish(Err(RespawnError::PrematureClose)),
    }
}

/// The text of an error.
pub open spec fn respawn_text(e: RespawnError) -> Seq<char> {
    match e {
        RespawnError::Launcher(le) => launcher::launcher_text(le),
        RespawnError::Ipc { detail } => "ipc error: "@ + detail@,
        RespawnError::Connect { socket, source } => "connect to daemon at "@
            + text::quoted_path_text(socket@) + ": "@ + source@,
        RespawnError::PersistentCrash => DAEMON_CRASHED_CODE@
            + ": barback crashed mid-action and the auto-respawn retry also crashed. The daemon may be in a persistent failure mode (OOM, plugin bug, filesystem issue); inspect daemon logs via `BARISTA_BARBACK_VERBOSE=1 barista verify`."@,
        RespawnError::DaemonProtocolError { code, message } => "daemon error: "@ + code@ + ": "@
            + message@,
        RespawnError::PrematureClose => "daemon connection closed before action terminated"@,
    }
}

impl RespawnError {
    /// The error as the user sees it.
    pub fn to_message(&self) -> (r: String)
        ensures
            r@ == respawn_text(*self),
    {
        match self {
            RespawnError::Launcher(le) => le.to_message(),
            RespawnError::Ipc { detail } => labelled("ipc error: ", detail.as_str()),
            RespawnError::Connect { socket, source } => {
                let mut out = "connect to daemon at ".to_owned();
                out.append(text::quoted_path(socket.as_str()).as_str());
                out.append(": ");
                out.append(source.as_str());
                out
            },
            RespawnError::PersistentCrash => labelled(
                DAEMON_CRASHED_CODE,
                ": barback crashed mid-action and the auto-respawn retry also crashed. The daemon may be in a persistent failure mode (OOM, plugin bug, filesystem issue); inspect daemon logs via `BARISTA_BARBACK_VERBOSE=1 barista verify`.",
            ),
            RespawnError::DaemonProtocolError { code, message } => {
                let mut out = "daemon error: ".to_owned();
                out.append(code.as_str());
                out.append(": ");
                out.append(message.as_str());
                out
            },
            RespawnError::PrematureClose =>
                "daemon connection closed before action terminated".to_owned(),
        }
    }
}

// ---------------------------------------------------------------------------
// Laws
// ---------------------------------------------------------------------------

/// No action is sent more than twice, and one that must not be repeated only once: after a
/// second attempt nothing asks for a further daemon.
pub proof fn at_most_one_respawn(
    attempt: u32,
    retryable: bool,
    socket: Seq<char>,
    ended: Result<AttemptOutcome, AttemptError>,
    s: RespawnStep,
)
    requires
        is_respawn_step(attempt, retryable, socket, ended, s),
    ensures
        s is Respawn ==> attempt == 0 && retryable && (ended matches Err(
            AttemptError::Crashed { .. },
        )),
{
}

/// A crash followed by a result is reported as that result with one respawn; a crash
/// followed by a crash is a persistent crash.
pub proof fn crash_is_retried_once(
    socket: Seq<char>,
    first: String,
    second: Result<AttemptOutcome, AttemptError>,
    s1: RespawnStep,
    s2: RespawnStep,
)
    requires
        is_respawn_step(0, true, socket, Err(AttemptError::Crashed { message: first }), s1),
        is_respawn_step(1, true, socket, second, s2),
    ensures
        s1 is Respawn,
        second matches Ok(o) ==> s2 == RespawnStep::Finish(
            Ok(RespawnOutcome { result: o.result, respawns: 1, progress: o.progress }),
        ),
        second matches Err(AttemptError::Crashed { .. }) ==> s2 == RespawnStep::Finish(
            Err(RespawnError::PersistentCrash),
        ),
{
}

/// A second crash is reported only after a second attempt: an action that is not repeated
/// ends with the crash that it saw.
pub proof fn persistent_crash_means_two(
    attempt: u32,
    retryable: bool,
    socket: Seq<char>,
    ended: Result<AttemptOutcome, AttemptError>,
    s: RespawnStep,
)
    requires
        is_respawn_step(attempt, retryable, socket, ended, s),
    ensures
        s == RespawnStep::Finish(Err(RespawnError::PersistentCrash)) <==> attempt > 0 && (
        ended matches Err(AttemptError::Crashed { .. })),
{
}

/// An attempt keeps what it was told, in order, and ends only with a result or an error; a
/// crash is told by its code and is no other error.
pub proof fn attempts_end_as_they_were_told(
    progress: Vec<String>,
    event: AttemptEvent,
    s: AttemptStep,
)
    requires
        is_attempt_step(progress, event, s),
    ensures
        event matches AttemptEvent::Progress(p) ==> (s matches AttemptStep::Continue(next) && next@
            == progress@ + seq![p]),
        event is Output ==> s == AttemptStep::Continue(progress),
        s is Continue <==> (event is Progress || event is Output),
        s matches AttemptStep::End(Ok(o)) ==> (event matches AttemptEvent::Ended(result)
            && o.result == result && o.progress == progress),
        s matches AttemptStep::End(Err(AttemptError::Crashed { .. })) ==> (
        event matches AttemptEvent::Error { code, .. } && code@ == "BAR-DAEMON-CRASHED"@),
        event matches AttemptEvent::Error { code, message } ==> {
            &&& code@ == "BAR-DAEMON-CRASHED"@ ==> s == AttemptStep::End(
                Err(AttemptError::Crashed { message }),
            )
            &&& code@ != "BAR-DAEMON-CRASHED"@ ==> s == AttemptStep::End(
                Err(AttemptError::DaemonProtocolError { code, message }),
            )
        },
        event is ConnectFailed ==> (s matches AttemptStep::End(Err(AttemptError::Connect { .. }))),
        event is Closed ==> s == AttemptStep::End(Err(AttemptError::PrematureClose)),
        event is SubmitFailed || event is DeadlinePassed || event is ChannelFailed ==> (
        s matches AttemptStep::End(Err(AttemptError::Ipc { .. }))),
{
    if let AttemptEvent::Progress(p) = event {
        assert(progress@.push(p) =~= progress@ + seq![p]);
    }
}

/// An action that ended is reported with its own result and as many respawns as there were
/// attempts before; anything else that ended it is reported as what it was.
pub proof fn outcome_is_that_of_the_last_attempt(
    attempt: u32,
    retryable: bool,
    socket: Seq<char>,
    ended: Result<AttemptOutcome, AttemptError>,
    s: RespawnStep,
)
    requires
        is_respawn_step(attempt, retryable, socket, ended, s),
    ensures
        ended matches Ok(o) ==> (s matches RespawnStep::Finish(Ok(r)) && r.result == o.result
            && r.progress == o.progress && r.respawns == attempt),
        s matches RespawnStep::Finish(Ok(_)) ==> ended is Ok,
        attempt == 0 && retryable && (ended matches Err(AttemptError::Crashed { .. }))
            ==> s is Respawn,
        s matches RespawnStep::Finish(Err(RespawnError::Connect { socket: at, source })) ==> at@
            == socket && ended == Err::<AttemptOutcome, AttemptError>(
            AttemptError::Connect { source },
        ),
        s matches RespawnStep::Finish(Err(RespawnError::Ipc { detail })) ==> ended == Err::<
            AttemptOutcome,
            AttemptError,
        >(AttemptError::Ipc { detail }),
        s == RespawnStep::Finish(Err(RespawnError::PrematureClose)) <==> ended == Err::<
            AttemptOutcome,
            AttemptError,
        >(AttemptError::PrematureClose),
{
}

/// What ended an action is told with what the daemon said.
pub proof fn errors_tell_what_the_daemon_said(code: String, message: String)
    ensures
        text::is_beginning_and_end(
            respawn_text(RespawnError::Ipc { detail: message }),
            "ipc error: "@,
            message@,
        ),
        text::is_beginning_and_end(
            respawn_text(RespawnError::DaemonProtocolError { code, message }),
            "daemon error: "@ + code@ + ": "@,
            message@,
        ),
        text::is_beginning_and_end(
            respawn_text(RespawnError::Connect { socket: code, source: message }),
            "connect to daemon at "@ + text::quoted_path_text(code@) + ": "@,
            message@,
        ),
        "BAR-DAEMON-CRASHED"@.is_prefix_of(respawn_text(RespawnError::PersistentCrash)),
{
    text::two_parts_are_beginning_and_end("ipc error: "@, message@);
    text::two_parts_are_beginning_and_end("daemon error: "@ + code@ + ": "@, message@);
    text::two_parts_are_beginning_and_end(
        "connect to daemon at "@ + text::quoted_path_text(code@) + ": "@,
        message@,
    );
}

/// A crash of an action that must not be repeated is reported as the error that it was, with
/// its code and its message.
pub proof fn unrepeated_crash_is_reported(message: String, socket: Seq<char>, s: RespawnStep)
    requires
        is_respawn_step(0, false, socket, Err(AttemptError::Crashed { message }), s),
    ensures
        s matches RespawnStep::Finish(Err(RespawnError::DaemonProtocolError { code, message: m }))
            && code@ == "BAR-DAEMON-CRASHED"@ && m == message,
{
}

/// An error of the daemon that is no crash is reported as it came.
pub proof fn daemon_error_is_reported_as_it_came(
    attempt: u32,
    retryable: bool,
    code: String,
    message: String,
    socket: Seq<char>,
    s: RespawnStep,
)
    requires
        is_respawn_step(
            attempt,
            retryable,
            socket,
            Err(AttemptError::DaemonProtocolError { code, message }),
            s,
        ),
    ensures
        s == RespawnStep::Finish(Err(RespawnError::DaemonProtocolError { code, message })),
{
}

} // verus!
