use librebooks_core::channel::backend_channel;
use librebooks_core::duration::Duration;
use librebooks_core::errors::Error;
use librebooks_core::metadata::ProbeOutcome;
use librebooks_core::player::{
    backend_handle_command, backend_handle_notification, BackendCommand, BackendEvent,
    EngineAction, EngineNotification, Event, Player, State, ToggleAction,
};

const BOOK_A: &str = r#"{
  "chapters": [
    {"tags": {"title": "Intro"}, "start_time": "0", "end_time": "600"},
    {"tags": {"title": "One"}, "start_time": "600", "end_time": "1200"}
  ],
  "format": {"tags": {"title": "A", "artist": "Author A"}, "duration": "1200"}
}"#;

const BOOK_B: &str = r#"{
  "chapters": [
    {"tags": {"title": "Only"}, "start_time": "0", "end_time": "300"}
  ],
  "format": {"tags": {"title": "B", "artist": "Author B"}, "duration": "300"}
}"#;

fn output(json: &str) -> ProbeOutcome {
    ProbeOutcome::Output(json.as_bytes().to_vec())
}

#[test]
fn open_replaces_metadata_and_tells_the_backend() {
    let (tx, rx) = backend_channel();
    let mut player = Player::new(tx);
    let event = player.open("a.mp3", output(BOOK_A)).unwrap();
    assert_eq!(player.metadata.title, "A");
    assert_eq!(player.metadata.chapters.len(), 2);
    // The event carries exactly the stored metadata.
    match event {
        Event::MetadataChanged(m) => assert_eq!(m, player.metadata),
        other => panic!("unexpected event {:?}", other),
    }
    assert_eq!(rx.rx.try_recv(), Ok(BackendCommand::Open(String::from("a.mp3"))));
}

#[test]
fn failed_open_preserves_the_session() {
    let (tx, rx) = backend_channel();
    let mut player = Player::new(tx);
    player.open("a.mp3", output(BOOK_A)).unwrap();
    let before = player.metadata.clone();
    let state_before = player.state;
    let position_before = player.position;
    rx.rx.try_recv().unwrap();

    // The probe cannot be invoked: the open fails, nothing reaches the
    // backend, and the whole session is left as it was.
    assert_eq!(
        player.open("b.mp3", ProbeOutcome::Unavailable).unwrap_err(),
        Error::ProbeUnavailable
    );
    assert_eq!(player.metadata, before);
    assert_eq!(player.state, state_before);
    assert_eq!(player.position, position_before);
    assert!(rx.rx.try_recv().is_err());

    // The same holds for a failing probe and a malformed report.
    assert_eq!(
        player.open("b.mp3", ProbeOutcome::Failed).unwrap_err(),
        Error::ProbeFailed
    );
    assert_eq!(
        player.open("b.mp3", output("garbage")).unwrap_err(),
        Error::MalformedReport
    );
    assert_eq!(player.metadata, before);
}

#[test]
fn open_replaces_metadata_wholesale() {
    let (tx, _rx) = backend_channel();
    let mut player = Player::new(tx);
    player.open("a.mp3", output(BOOK_A)).unwrap();
    let event = player.open("b.mp3", output(BOOK_B)).unwrap();
    // Nothing of book A survives next to book B's title: the metadata and
    // the emitted event both describe book B alone.
    assert_eq!(player.metadata.title, "B");
    assert_eq!(player.metadata.artist, "Author B");
    assert_eq!(player.metadata.path, "b.mp3");
    assert_eq!(player.metadata.duration, Duration::from_millis(300_000));
    assert_eq!(player.metadata.chapters.len(), 1);
    assert_eq!(player.metadata.chapters[0].title, "Only");
    match event {
        Event::MetadataChanged(m) => {
            assert_eq!(m.title, "B");
            assert_eq!(m.chapters.len(), 1);
        },
        other => panic!("unexpected event {:?}", other),
    }
}

#[test]
fn commands_that_send_nothing_succeed_without_a_worker() {
    let (tx, rx) = backend_channel();
    let player = Player::new(tx);
    drop(rx);
    // Toggling a stopped player and navigating an empty book send nothing,
    // so they succeed even though the worker is gone.
    assert_eq!(player.toggle_play(), Ok(ToggleAction::OpenRequested));
    assert_eq!(player.next_chapter(), Ok(None));
    assert_eq!(player.previous_chapter(), Ok(None));
}

#[test]
fn send_after_worker_gone_reports_channel_closed() {
    let (tx, rx) = backend_channel();
    let player = Player::new(tx);
    drop(rx);
    // The sends return at once with an error instead of blocking.
    assert_eq!(player.play(), Err(Error::ChannelClosed));
    assert_eq!(player.pause(), Err(Error::ChannelClosed));
    assert_eq!(player.seek(Duration::from_millis(5)), Err(Error::ChannelClosed));
}

#[test]
fn open_after_worker_gone_reports_channel_closed() {
    let (tx, rx) = backend_channel();
    let mut player = Player::new(tx);
    drop(rx);
    // Extraction succeeded, so the metadata is replaced; the lost command
    // is still reported.
    assert_eq!(player.open("a.mp3", output(BOOK_A)).unwrap_err(), Error::ChannelClosed);
    assert_eq!(player.metadata.title, "A");
}

#[test]
fn transport_commands_reach_the_backend_queue_in_order() {
    let (tx, rx) = backend_channel();
    let player = Player::new(tx);
    player.play().unwrap();
    player.pause().unwrap();
    player.seek(Duration::from_millis(1500)).unwrap();
    assert_eq!(rx.rx.try_recv(), Ok(BackendCommand::Play));
    assert_eq!(rx.rx.try_recv(), Ok(BackendCommand::Pause));
    assert_eq!(rx.rx.try_recv(), Ok(BackendCommand::Seek(Duration::from_millis(1500))));
    assert!(rx.rx.try_recv().is_err());
}

#[test]
fn backend_events_fold_into_the_session() {
    let (tx, _rx) = backend_channel();
    let mut player = Player::new(tx);

    let ev = player.on_backend_event(BackendEvent::StateChanged(State::Playing));
    assert_eq!(player.state, State::Playing);
    assert_eq!(ev, Some(Event::StateChanged(State::Playing)));

    let ev = player.on_backend_event(BackendEvent::PositionUpdated(Duration::from_millis(42)));
    assert_eq!(player.position, Duration::from_millis(42));
    assert_eq!(ev, Some(Event::Progress(Duration::from_millis(42))));

    // End of stream is handled inside the backend; the player re-emits
    // nothing and changes nothing.
    let ev = player.on_backend_event(BackendEvent::EndOfStream);
    assert_eq!(ev, None);
    assert_eq!(player.state, State::Playing);

    let ev = player.on_backend_event(BackendEvent::EngineError);
    assert_eq!(player.state, State::Error);
    assert_eq!(ev, Some(Event::StateChanged(State::Error)));
}

#[test]
fn chapter_navigation_seeks_through_the_backend() {
    let (tx, rx) = backend_channel();
    let mut player = Player::new(tx);
    player.open("a.mp3", output(BOOK_A)).unwrap();
    rx.rx.try_recv().unwrap();

    player.on_backend_event(BackendEvent::PositionUpdated(Duration::from_millis(605_000)));
    // Five seconds into the second chapter: "previous" jumps to the start
    // of the first chapter.
    let target = player.previous_chapter().unwrap();
    assert_eq!(target, Some(Duration::from_millis(0)));
    assert_eq!(rx.rx.try_recv(), Ok(BackendCommand::Seek(Duration::from_millis(0))));

    player.on_backend_event(BackendEvent::PositionUpdated(Duration::from_millis(650_000)));
    // Fifty seconds in: "previous" restarts the chapter.
    let target = player.previous_chapter().unwrap();
    assert_eq!(target, Some(Duration::from_millis(600_000)));
    assert_eq!(rx.rx.try_recv(), Ok(BackendCommand::Seek(Duration::from_millis(600_000))));

    // "Next" seeks to the end of the current chapter.
    let target = player.next_chapter().unwrap();
    assert_eq!(target, Some(Duration::from_millis(1_200_000)));
    assert_eq!(
        rx.rx.try_recv(),
        Ok(BackendCommand::Seek(Duration::from_millis(1_200_000)))
    );

    // Outside every chapter nothing is sent.
    player.on_backend_event(BackendEvent::PositionUpdated(Duration::from_millis(2_000_000)));
    assert_eq!(player.next_chapter().unwrap(), None);
    assert!(rx.rx.try_recv().is_err());
}

#[test]
fn toggle_play_follows_the_state() {
    let (tx, rx) = backend_channel();
    let mut player = Player::new(tx);

    assert_eq!(player.toggle_play().unwrap(), ToggleAction::OpenRequested);
    assert!(rx.rx.try_recv().is_err());

    player.on_backend_event(BackendEvent::StateChanged(State::Playing));
    assert_eq!(player.toggle_play().unwrap(), ToggleAction::SentPause);
    assert_eq!(rx.rx.try_recv(), Ok(BackendCommand::Pause));

    player.on_backend_event(BackendEvent::StateChanged(State::Paused));
    assert_eq!(player.toggle_play().unwrap(), ToggleAction::SentPlay);
    assert_eq!(rx.rx.try_recv(), Ok(BackendCommand::Play));

    player.on_backend_event(BackendEvent::StateChanged(State::Buffering));
    assert_eq!(player.toggle_play().unwrap(), ToggleAction::Ignored);
    assert!(rx.rx.try_recv().is_err());
}

#[test]
fn backend_command_mapping() {
    // Opening turns the path into a resolvable file URI.
    assert_eq!(
        backend_handle_command(BackendCommand::Open(String::from("/a.mp3"))),
        EngineAction::SetSourceAndPlay(String::from("file:///a.mp3"))
    );
    assert_eq!(backend_handle_command(BackendCommand::Play), EngineAction::Play);
    assert_eq!(backend_handle_command(BackendCommand::Pause), EngineAction::Pause);
    assert_eq!(
        backend_handle_command(BackendCommand::Seek(Duration::from_millis(7))),
        EngineAction::Seek(Duration::from_millis(7))
    );
}

#[test]
fn backend_notification_mapping() {
    assert_eq!(
        backend_handle_notification(EngineNotification::StateChanged(State::Paused)),
        (Some(BackendEvent::StateChanged(State::Paused)), None)
    );
    // Positions arrive in nanoseconds and are reported in milliseconds.
    assert_eq!(
        backend_handle_notification(EngineNotification::PositionUpdated(1_500_000)),
        (
            Some(BackendEvent::PositionUpdated(Duration::from_millis(1))),
            None
        )
    );
    // End of stream and an engine fault both stop the engine.
    assert_eq!(
        backend_handle_notification(EngineNotification::EndOfStream),
        (Some(BackendEvent::EndOfStream), Some(EngineAction::Stop))
    );
    assert_eq!(
        backend_handle_notification(EngineNotification::EngineError),
        (Some(BackendEvent::EngineError), Some(EngineAction::Stop))
    );
}
