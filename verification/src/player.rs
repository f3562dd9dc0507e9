//! The player state machine and the backend's command vocabulary. The
//! player is the control-plane façade: it extracts metadata on open, keeps
//! the session's state, position and metadata as a fold over incoming
//! backend events, and forwards transport commands to the backend worker.
//! The backend decision functions map commands and engine notifications to
//! engine actions; the loop performing those actions runs outside the core.
use vstd::prelude::*;
use vstd::string::StringExecFns;

use crate::channel::CommandSender;
use crate::duration::Duration;
use crate::errors::Error;
use crate::json::json_of;
use crate::metadata::{
    extraction_ok, json_sorted, json_times_ok, metadata_matches_json, same_book, Metadata,
    ProbeOutcome,
};
use crate::report::report_shape_ok;

verus! {

/// Coarse playback status. The engine may surface states beyond the named
/// ones; those pass through as `Unknown` rather than being dropped.
#[derive(Clone, Copy, PartialEq, Eq, Structural, Debug)]
pub enum State {
    Stopped,
    Buffering,
    Paused,
    Playing,
    Error,
    Unknown,
}

/// A command from the presentation layer to the player.
#[derive(Debug, PartialEq, Eq)]
pub enum Command {
    Open(String),
    Play,
    Pause,
    Seek(Duration),
}

/// An event from the player to the presentation layer.
#[derive(Debug, PartialEq, Eq)]
pub enum Event {
    MetadataChanged(Metadata),
    StateChanged(State),
    Progress(Duration),
}

/// A command from the player to the backend worker.
#[derive(Debug, PartialEq, Eq)]
pub enum BackendCommand {
    Open(String),
    Play,
    Pause,
    Seek(Duration),
}

/// An event from the backend worker to the player.
#[derive(Debug, PartialEq, Eq)]
pub enum BackendEvent {
    StateChanged(State),
    PositionUpdated(Duration),
    EndOfStream,
    EngineError,
}

/// What the engine reported to the backend worker.
#[derive(Debug, PartialEq, Eq)]
pub enum EngineNotification {
    StateChanged(State),
    /// A periodic position report, in nanoseconds.
    PositionUpdated(u64),
    EndOfStream,
    EngineError,
}

/// One call into the native engine, to be performed by the worker loop.
#[derive(Debug, PartialEq, Eq)]
pub enum EngineAction {
    /// Point the engine at this source and start playback at once.
    SetSourceAndPlay(String),
    Play,
    Pause,
    Seek(Duration),
    Stop,
}

/// The resolvable media URI under which the engine is pointed at a local
/// file path.
pub fn file_uri(path: &str) -> (r: String)
    ensures
        r@ == "file://"@ + path@,
{
    let mut uri = String::from_str("file://");
    uri.append(path);
    uri
}

/// What a backend command asks of the engine. `Open` points the engine at
/// the path's file URI and starts playback at once; `Play` and `Pause`
/// pass through (the engine treats them idempotently); `Seek` passes the
/// target through.
pub fn backend_handle_command(command: BackendCommand) -> (r: EngineAction)
    ensures
        match command {
            BackendCommand::Open(path) => r matches EngineAction::SetSourceAndPlay(uri) && uri@
                == "file://"@ + path@,
            BackendCommand::Play => r == EngineAction::Play,
            BackendCommand::Pause => r == EngineAction::Pause,
            BackendCommand::Seek(d) => r == EngineAction::Seek(d),
        },
{
    match command {
        BackendCommand::Open(path) => EngineAction::SetSourceAndPlay(file_uri(path.as_str())),
        BackendCommand::Play => EngineAction::Play,
        BackendCommand::Pause => EngineAction::Pause,
        BackendCommand::Seek(d) => EngineAction::Seek(d),
    }
}

/// What an engine notification becomes: the event to republish, and the
/// corrective action. State changes and position reports pass through 1:1;
/// end of stream and an engine fault both stop the engine, so it never
/// stays in an undefined running state.
pub fn backend_handle_notification(n: EngineNotification) -> (r: (
    Option<BackendEvent>,
    Option<EngineAction>,
))
    ensures
        match n {
            EngineNotification::StateChanged(s) => r == (
                Some(BackendEvent::StateChanged(s)),
                None::<EngineAction>,
            ),
            EngineNotification::PositionUpdated(nanos) => r == (
                Some(
                    BackendEvent::PositionUpdated(
                        Duration { millis: nanos / crate::duration::NANOS_PER_MILLI },
                    ),
                ),
                None::<EngineAction>,
            ),
            EngineNotification::EndOfStream => r == (
                Some(BackendEvent::EndOfStream),
                Some(EngineAction::Stop),
            ),
            EngineNotification::EngineError => r == (
                Some(BackendEvent::EngineError),
                Some(EngineAction::Stop),
            ),
        },
{
    match n {
        EngineNotification::StateChanged(s) => (Some(BackendEvent::StateChanged(s)), None),
        EngineNotification::PositionUpdated(nanos) => (
            Some(BackendEvent::PositionUpdated(Duration::from_nanos(nanos))),
            None,
        ),
        EngineNotification::EndOfStream => (Some(BackendEvent::EndOfStream), Some(
            EngineAction::Stop,
        )),
        EngineNotification::EngineError => (Some(BackendEvent::EngineError), Some(
            EngineAction::Stop,
        )),
    }
}

/// A relative or absolute seek request from the presentation layer.
#[derive(Clone, Copy, Debug)]
pub enum SeekDirection {
    Forward(Duration),
    Backward(Duration),
    At(Duration),
}

/// The absolute position a seek request resolves to, clamped to the
/// representable range: skipping back past the start lands on zero.
pub fn resolve_seek(position: Duration, seek: SeekDirection) -> (r: Duration)
    ensures
        match seek {
            SeekDirection::Forward(d) => r.millis == if position.millis + d.millis <= u64::MAX {
                position.millis + d.millis
            } else {
                u64::MAX as int
            },
            SeekDirection::Backward(d) => r.millis == if position.millis >= d.millis {
                position.millis - d.millis
            } else {
                0
            },
            SeekDirection::At(p) => r == p,
        },
{
    match seek {
        SeekDirection::Forward(d) => position.saturating_add(d),
        SeekDirection::Backward(d) => position.saturating_sub(d),
        SeekDirection::At(p) => p,
    }
}

/// What "toggle play" did, so the caller can follow up.
#[derive(Clone, Copy, PartialEq, Eq, Structural, Debug)]
pub enum ToggleAction {
    /// Playback was running; a pause was sent.
    SentPause,
    /// Playback was paused; a play was sent.
    SentPlay,
    /// Nothing is open; the caller should offer to open a book.
    OpenRequested,
    /// The state gives no sensible toggle; nothing was sent.
    Ignored,
}

/// The control-plane façade: the session's advisory state, fed by backend
/// events, and the sending half of the backend's command queue.
pub struct Player {
    pub metadata: Metadata,
    pub state: State,
    pub position: Duration,
    pub backend: CommandSender,
}

impl Player {
    /// A fresh session: stopped, at zero, with no book open.
    pub fn new(backend: CommandSender) -> (r: Player)
        ensures
            r.state == State::Stopped,
            r.position.millis == 0,
            r.metadata.wf(),
            r.metadata.path@.len() == 0,
            r.metadata.title@.len() == 0,
            r.metadata.artist@.len() == 0,
            r.metadata.duration.millis == 0,
            r.metadata.chapters@.len() == 0,
            r.backend == backend,
    {
        Player {
            metadata: Metadata::empty(),
            state: State::Stopped,
            position: Duration::zero(),
            backend,
        }
    }

    /// Opens a book: extracts its metadata, and on success replaces the
    /// session's metadata wholesale, hands back the `MetadataChanged`
    /// event carrying exactly the new metadata, and tells the backend to
    /// open the source. On an extraction failure nothing is forwarded and
    /// the whole session is left untouched; only a send failure after a
    /// successful extraction reports `ChannelClosed`.
    pub fn open(&mut self, path: &str, outcome: ProbeOutcome) -> (r: Result<Event, Error>)
        ensures
            outcome is Unavailable ==> r == Err::<Event, Error>(Error::ProbeUnavailable),
            outcome is Failed ==> r == Err::<Event, Error>(Error::ProbeFailed),
            outcome matches ProbeOutcome::Output(bytes) ==> ({
                let doc = json_of(bytes@);
                // The open goes through to the backend exactly when the
                // probe's bytes carry a well-formed report; each pre-send
                // error names exactly what was wrong with them.
                &&& ((r is Ok || r == Err::<Event, Error>(Error::ChannelClosed))
                    <==> extraction_ok(bytes@))
                &&& (r == Err::<Event, Error>(Error::InvalidTimestamp) <==> (doc matches Some(j)
                    && report_shape_ok(j) && !json_times_ok(j)))
                &&& (r == Err::<Event, Error>(Error::MalformedReport) <==> (doc is None || (
                doc matches Some(j) && (!report_shape_ok(j) || (json_times_ok(j) && !json_sorted(
                    j,
                ))))))
                // Whenever extraction succeeded — even if the send then
                // failed — the stored metadata is what the report says.
                &&& (extraction_ok(bytes@) ==> (doc matches Some(j) && metadata_matches_json(
                    final(self).metadata,
                    j,
                )))
            }),
            r matches Err(e) ==> (e != Error::ChannelClosed ==> *final(self) == *old(self) && (e
                == Error::ProbeUnavailable || e == Error::ProbeFailed || e
                == Error::MalformedReport || e == Error::InvalidTimestamp)),
            r matches Ok(ev) ==> ({
                &&& final(self).metadata.wf()
                &&& final(self).metadata.path@ == path@
                &&& final(self).state == old(self).state
                &&& final(self).position == old(self).position
                &&& ev matches Event::MetadataChanged(m) && same_book(m, final(self).metadata)
            }),
            r == Err::<Event, Error>(Error::ChannelClosed) ==> ({
                &&& final(self).metadata.wf()
                &&& final(self).metadata.path@ == path@
                &&& final(self).state == old(self).state
                &&& final(self).position == old(self).position
            }),
    {
        let metadata = match Metadata::extract(path, outcome) {
            Ok(m) => m,
            Err(e) => {
                return Err(e);
            },
        };
        self.metadata = metadata;
        let for_event = self.metadata.clone();
        match self.backend.send(BackendCommand::Open(path.to_owned())) {
            Ok(_) => Ok(Event::MetadataChanged(for_event)),
            Err(e) => Err(e),
        }
    }

    /// Forwards a play to the backend; no local precondition, the engine
    /// treats a redundant play as a no-op.
    pub fn play(&self) -> (r: Result<(), Error>)
        ensures
            r matches Err(e) ==> e == Error::ChannelClosed,
    {
        self.backend.send(BackendCommand::Play)
    }

    /// Forwards a pause to the backend.
    pub fn pause(&self) -> (r: Result<(), Error>)
        ensures
            r matches Err(e) ==> e == Error::ChannelClosed,
    {
        self.backend.send(BackendCommand::Pause)
    }

    /// Forwards an absolute seek to the backend.
    pub fn seek(&self, position: Duration) -> (r: Result<(), Error>)
        ensures
            r matches Err(e) ==> e == Error::ChannelClosed,
    {
        self.backend.send(BackendCommand::Seek(position))
    }

    /// Folds one backend event into the session and re-emits it for the
    /// presentation layer: state changes pass through, position reports
    /// become progress, an engine fault becomes an error state, and end of
    /// stream is internal (the stop it triggers reports its own state
    /// change). The metadata is never touched here.
    pub fn on_backend_event(&mut self, event: BackendEvent) -> (r: Option<Event>)
        ensures
            final(self).metadata == old(self).metadata,
            match event {
                BackendEvent::StateChanged(s) => final(self).state == s && final(self).position
                    == old(self).position && r == Some(Event::StateChanged(s)),
                BackendEvent::PositionUpdated(d) => final(self).position == d && final(self).state
                    == old(self).state && r == Some(Event::Progress(d)),
                BackendEvent::EndOfStream => *final(self) == *old(self) && r is None,
                BackendEvent::EngineError => final(self).state == State::Error && final(self).position
                    == old(self).position && r == Some(Event::StateChanged(State::Error)),
            },
    {
        match event {
            BackendEvent::StateChanged(s) => {
                self.state = s;
                Some(Event::StateChanged(s))
            },
            BackendEvent::PositionUpdated(d) => {
                self.position = d;
                Some(Event::Progress(d))
            },
            BackendEvent::EndOfStream => None,
            BackendEvent::EngineError => {
                self.state = State::Error;
                Some(Event::StateChanged(State::Error))
            },
        }
    }

    /// Seeks to the end of the current chapter; nothing is sent when the
    /// position lies in no chapter. Returns the target used.
    pub fn next_chapter(&self) -> (r: Result<Option<Duration>, Error>)
        ensures
            r matches Ok(t) ==> t == crate::nav::spec_next_target(
                self.metadata.chapters@,
                self.position,
            ),
            r matches Err(e) ==> e == Error::ChannelClosed,
            // With no target there is nothing to send, so nothing can fail.
            crate::nav::spec_next_target(self.metadata.chapters@, self.position) is None ==> r
                == Ok::<Option<Duration>, Error>(None),
    {
        match self.metadata.next_chapter(self.position) {
            Some(target) => {
                match self.seek(target) {
                    Ok(_) => Ok(Some(target)),
                    Err(e) => Err(e),
                }
            },
            None => Ok(None),
        }
    }

    /// Seeks to the "previous chapter" target: the current chapter's
    /// start, or — within ten seconds of it — the start of the chapter ten
    /// seconds before. Nothing is sent when there is no target.
    pub fn previous_chapter(&self) -> (r: Result<Option<Duration>, Error>)
        ensures
            r matches Ok(t) ==> t == crate::nav::spec_previous_target(
                self.metadata.chapters@,
                self.position,
            ),
            r matches Err(e) ==> e == Error::ChannelClosed,
            // With no target there is nothing to send, so nothing can fail.
            crate::nav::spec_previous_target(self.metadata.chapters@, self.position) is None ==> r
                == Ok::<Option<Duration>, Error>(None),
    {
        match self.metadata.previous_chapter(self.position) {
            Some(target) => {
                match self.seek(target) {
                    Ok(_) => Ok(Some(target)),
                    Err(e) => Err(e),
                }
            },
            None => Ok(None),
        }
    }

    /// Pauses when playing, plays when paused, asks the caller to open a
    /// book when stopped, and does nothing in any other state.
    pub fn toggle_play(&self) -> (r: Result<ToggleAction, Error>)
        ensures
            r matches Ok(a) ==> a == match self.state {
                State::Playing => ToggleAction::SentPause,
                State::Paused => ToggleAction::SentPlay,
                State::Stopped => ToggleAction::OpenRequested,
                _ => ToggleAction::Ignored,
            },
            r matches Err(e) ==> e == Error::ChannelClosed,
            // Outside the two transport states nothing is sent, so the
            // toggle cannot fail: stopped always asks for an open, and any
            // other state is always ignored.
            self.state == State::Stopped ==> r == Ok::<ToggleAction, Error>(
                ToggleAction::OpenRequested,
            ),
            self.state != State::Playing && self.state != State::Paused && self.state
                != State::Stopped ==> r == Ok::<ToggleAction, Error>(ToggleAction::Ignored),
    {
        match self.state {
            State::Playing => {
                match self.pause() {
                    Ok(_) => Ok(ToggleAction::SentPause),
                    Err(e) => Err(e),
                }
            },
            State::Paused => {
                match self.play() {
                    Ok(_) => Ok(ToggleAction::SentPlay),
                    Err(e) => Err(e),
                }
            },
            State::Stopped => Ok(ToggleAction::OpenRequested),
            _ => Ok(ToggleAction::Ignored),
        }
    }
}

} // verus!
