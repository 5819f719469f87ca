use castoff::connection::{
    connection_step, dispatch, is_exclusive, payload_kind, port, ConnectionAction,
    ConnectionEvent, ConnectionWriter, Dispatch, DispatchError, Payload, PayloadKind, PushAction,
    PushEvent, PushTask, Reply, Work, WriteOutcome,
};
use castoff::fcast::{
    Opcode, PlayMessage, PlaybackState, QueueJumpToIndexMessage, Real, SeekMessage,
    SetImageWallpaperMessage, SetSpeedMessage, SetVolumeMessage, DEFAULT_PORT,
};
use castoff::idle_screen::IdleScreen;
use castoff::images::{name_upload, ImageStore, Manifest};
use castoff::player::Player;
use castoff::queue::Queue;
use castoff::script::Op;
use castoff::webpage::{Browser, WebpageController};

fn player() -> Player {
    let mut player = Player::new(
        Queue::default(),
        WebpageController::with_browser(Browser::from_settings(None, None, 1, 0)),
    );
    player.show_idle_screen(IdleScreen::Clock);
    player
}

fn images() -> ImageStore {
    ImageStore::with_dir("/state", Manifest::default())
}

fn send(player: &mut Player, opcode: Opcode, payload: Payload) -> Dispatch {
    dispatch(player, &mut images(), opcode, payload, 5).unwrap()
}

fn play(url: &str) -> Payload {
    Payload::Play(PlayMessage {
        url: Some(url.to_string()),
        ..Default::default()
    })
}

#[test]
fn every_command_is_answered_with_its_opcode() {
    let value = Real { bits: 1 };
    let cases = vec![
        (Opcode::Play, play("http://a/"), Some(Opcode::PlaybackUpdate)),
        (Opcode::Pause, Payload::Nothing, Some(Opcode::PlaybackUpdate)),
        (Opcode::Resume, Payload::Nothing, Some(Opcode::PlaybackUpdate)),
        (Opcode::Stop, Payload::Nothing, Some(Opcode::PlaybackUpdate)),
        (
            Opcode::Seek,
            Payload::Seek(SeekMessage { time: value }),
            Some(Opcode::PlaybackUpdate),
        ),
        (
            Opcode::SetVolume,
            Payload::Volume(SetVolumeMessage { volume: value }),
            Some(Opcode::VolumeUpdate),
        ),
        (
            Opcode::SetSpeed,
            Payload::Speed(SetSpeedMessage { speed: value }),
            Some(Opcode::PlaybackUpdate),
        ),
        (Opcode::Version, Payload::Nothing, Some(Opcode::Version)),
        (Opcode::Ping, Payload::Nothing, Some(Opcode::Pong)),
        (Opcode::RequestQueue, Payload::Nothing, Some(Opcode::QueueState)),
        (Opcode::QueueJumpForward, Payload::Nothing, Some(Opcode::QueueState)),
        (Opcode::QueueJumpBackward, Payload::Nothing, Some(Opcode::QueueState)),
        (Opcode::ClearQueue, Payload::Nothing, Some(Opcode::QueueState)),
        (
            Opcode::QueueJumpToIndex,
            Payload::Index(QueueJumpToIndexMessage { index: 9 }),
            Some(Opcode::QueueState),
        ),
        (Opcode::NoOp, Payload::Nothing, None),
        (Opcode::PlaybackUpdate, Payload::Nothing, None),
        (Opcode::VolumeUpdate, Payload::Nothing, None),
        (Opcode::PlaybackError, Payload::Nothing, None),
        (Opcode::Pong, Payload::Nothing, None),
        (Opcode::QueueState, Payload::Nothing, None),
        (Opcode::ImageWallpaperUpdate, Payload::Nothing, None),
    ];
    for (opcode, payload, answer) in cases {
        let reply = send(&mut player(), opcode, payload).reply;
        assert_eq!(reply.opcode(), answer, "{opcode:?}");
    }
}

#[test]
fn a_body_is_decoded_by_its_opcode() {
    assert_eq!(payload_kind(Opcode::Play), PayloadKind::Play);
    assert_eq!(payload_kind(Opcode::Seek), PayloadKind::Seek);
    assert_eq!(payload_kind(Opcode::SetVolume), PayloadKind::Volume);
    assert_eq!(payload_kind(Opcode::SetSpeed), PayloadKind::Speed);
    assert_eq!(payload_kind(Opcode::QueueJumpToIndex), PayloadKind::Index);
    assert_eq!(
        payload_kind(Opcode::SetImageWallpaper),
        PayloadKind::Wallpaper
    );
    assert_eq!(payload_kind(Opcode::Stop), PayloadKind::Nothing);
}

#[test]
fn plain_commands_go_to_the_media_player() {
    let value = Real { bits: 8 };
    let mut player = player();
    let d = send(&mut player, Opcode::Seek, Payload::Seek(SeekMessage { time: value }));
    assert!(matches!(d.work, Work::Seek(v) if v == value));
    let d = send(
        &mut player,
        Opcode::SetVolume,
        Payload::Volume(SetVolumeMessage { volume: value }),
    );
    assert!(matches!(d.work, Work::SetVolume(v) if v == value));
    let d = send(
        &mut player,
        Opcode::SetSpeed,
        Payload::Speed(SetSpeedMessage { speed: value }),
    );
    assert!(matches!(d.work, Work::SetSpeed(v) if v == value));
    assert!(matches!(
        send(&mut player, Opcode::Pause, Payload::Nothing).work,
        Work::Pause
    ));
    assert!(matches!(
        send(&mut player, Opcode::Resume, Payload::Nothing).work,
        Work::Resume
    ));
    assert!(matches!(
        send(&mut player, Opcode::Ping, Payload::Nothing).work,
        Work::Nothing
    ));
}

#[test]
fn the_protocol_version_is_two() {
    match send(&mut player(), Opcode::Version, Payload::Nothing).reply {
        Reply::Version(message) => assert_eq!(message.version, 2),
        other => panic!("unexpected: {other:?}"),
    }
}

#[test]
fn a_play_starts_a_task_and_a_second_one_waits() {
    let mut player = player();
    match send(&mut player, Opcode::Play, play("http://a/")).work {
        Work::Task(task) => {
            assert_eq!(task.target, "http://a/");
            assert_eq!(task.next(), Some(Op::HidePage));
        }
        other => panic!("unexpected: {other:?}"),
    }
    player.hide_idle_screen();
    assert!(matches!(
        send(&mut player, Opcode::Play, play("http://b/")).work,
        Work::Nothing
    ));
    assert_eq!(player.queue.items.len(), 2);
    match send(&mut player, Opcode::QueueJumpForward, Payload::Nothing).work {
        Work::Task(task) => assert_eq!(task.target, "http://b/"),
        other => panic!("unexpected: {other:?}"),
    }
    match send(&mut player, Opcode::ClearQueue, Payload::Nothing).work {
        Work::Task(task) => assert_eq!(task.next(), Some(Op::HidePage)),
        other => panic!("unexpected: {other:?}"),
    }
    assert!(matches!(
        send(&mut player, Opcode::Stop, Payload::Nothing).work,
        Work::Task(_)
    ));
}

#[test]
fn a_refused_play_is_an_error() {
    let err = dispatch(
        &mut player(),
        &mut images(),
        Opcode::Play,
        Payload::Play(PlayMessage::default()),
        0,
    )
    .unwrap_err();
    assert!(matches!(err, DispatchError::Play(_)));
    assert_eq!(
        err.message(),
        "Play message has neither `url` nor `content`"
    );
}

#[test]
fn an_image_is_tagged_and_the_tag_confirmed() {
    let mut player = player();
    let mut store = images();
    let stored = name_upload("image/png", 1, 1).unwrap();
    store.store(stored.clone()).unwrap();
    let tag = Payload::Wallpaper(SetImageWallpaperMessage {
        id: stored.id.clone(),
        wallpaper: true,
    });
    let d = dispatch(&mut player, &mut store, Opcode::SetImageWallpaper, tag, 77).unwrap();
    assert_eq!(d.reply.opcode(), Some(Opcode::ImageWallpaperUpdate));
    match d.reply {
        Reply::Wallpaper(update) => {
            assert_eq!(update.generation_time, 77);
            assert_eq!(update.id, stored.id);
            assert!(update.wallpaper);
        }
        other => panic!("unexpected: {other:?}"),
    }
    assert!(store.manifest.images[0].wallpaper);

    let unknown = Payload::Wallpaper(SetImageWallpaperMessage {
        id: "nope".to_string(),
        wallpaper: true,
    });
    let err = dispatch(
        &mut player,
        &mut store,
        Opcode::SetImageWallpaper,
        unknown,
        78,
    )
    .unwrap_err();
    assert_eq!(err.message(), "no uploaded image has the id \"nope\"");
}

#[test]
fn older_updates_are_dropped() {
    let mut writer = ConnectionWriter::new();
    let mut written = Vec::new();
    for generation in [5, 3, 5, 9, 8, 10] {
        if writer.write_playback_update(generation) {
            written.push(generation);
        }
    }
    assert_eq!(written, vec![5, 5, 9, 10]);
    assert_eq!(writer.last_generation, 10);
}

#[test]
fn the_tick_runs_only_while_something_plays() {
    let mut task = PushTask::new(PlaybackState::Idle);
    assert!(!task.ticking());
    assert_eq!(task.woken(PushEvent::Tick), PushAction::Wait);
    assert_eq!(task.woken(PushEvent::Changed), PushAction::WritePublished);

    assert!(task.sent(
        WriteOutcome::Written,
        PlaybackState::Playing,
        PlaybackState::Playing
    ));
    assert!(task.ticking());
    assert_eq!(task.woken(PushEvent::Tick), PushAction::WriteFresh);

    assert!(task.sent(
        WriteOutcome::Written,
        PlaybackState::Idle,
        PlaybackState::Playing
    ));
    assert!(!task.ticking(), "a fresh snapshot can end the tick");
}

#[test]
fn a_dropped_update_leaves_the_published_state() {
    let mut task = PushTask::new(PlaybackState::Idle);
    assert!(task.sent(
        WriteOutcome::Dropped,
        PlaybackState::Idle,
        PlaybackState::Playing
    ));
    assert_eq!(task.last_state, PlaybackState::Playing);
    assert!(!task.sent(
        WriteOutcome::Failed,
        PlaybackState::Paused,
        PlaybackState::Paused
    ));
    assert_eq!(task.last_state, PlaybackState::Playing);
    assert_eq!(task.woken(PushEvent::Closed), PushAction::End);
}

#[test]
fn a_port_is_read_from_its_setting() {
    let set = |s: &str| port(Some(s.to_string()), DEFAULT_PORT);
    assert_eq!(port(None, DEFAULT_PORT), 46899);
    assert_eq!(set("8080"), 8080);
    assert_eq!(set("+8080"), 8080);
    assert_eq!(set("0"), 0);
    assert_eq!(set("0000000000000000000080"), 80);
    assert_eq!(set("65535"), 65535);
    for unusable in ["", "+", "-1", "65536", "99999999999999999999", "80 ", "0x50", "++1", "８０"] {
        assert_eq!(set(unusable), DEFAULT_PORT, "{unusable:?}");
        assert_eq!(unusable.parse::<u16>().ok(), None);
    }
}

#[test]
fn a_change_of_the_queue_is_pushed() {
    for state in [
        PlaybackState::Idle,
        PlaybackState::Playing,
        PlaybackState::Paused,
    ] {
        let task = PushTask::new(state);
        assert_eq!(task.woken(PushEvent::QueueChanged), PushAction::WriteQueue);
    }
}

#[test]
fn a_failed_command_is_answered_and_the_connection_goes_on() {
    assert!(matches!(
        connection_step(ConnectionEvent::Opened),
        ConnectionAction::ReadFrame
    ));
    assert!(matches!(
        connection_step(ConnectionEvent::FrameRead),
        ConnectionAction::Answer
    ));
    assert!(matches!(
        connection_step(ConnectionEvent::Answered),
        ConnectionAction::ReadFrame
    ));
    match connection_step(ConnectionEvent::CommandFailed("seek failed".to_string())) {
        ConnectionAction::SendError(error) => assert_eq!(error.message, "seek failed"),
        other => panic!("unexpected: {other:?}"),
    }
    assert!(matches!(
        connection_step(ConnectionEvent::ErrorSent),
        ConnectionAction::ReadFrame
    ));
    assert!(matches!(
        connection_step(ConnectionEvent::Closed),
        ConnectionAction::Close
    ));
    for event in [ConnectionEvent::ReadFailed, ConnectionEvent::ErrorNotSent] {
        assert!(matches!(connection_step(event), ConnectionAction::Abandon));
    }
}

#[test]
fn commands_that_take_the_screen_exclude_each_other() {
    for opcode in [
        Opcode::Play,
        Opcode::Stop,
        Opcode::QueueJumpForward,
        Opcode::QueueJumpBackward,
        Opcode::QueueJumpToIndex,
        Opcode::ClearQueue,
    ] {
        assert!(is_exclusive(opcode));
    }
    for opcode in [
        Opcode::Pause,
        Opcode::Seek,
        Opcode::SetVolume,
        Opcode::Ping,
        Opcode::RequestQueue,
        Opcode::SetImageWallpaper,
    ] {
        assert!(!is_exclusive(opcode));
    }
}

#[test]
fn only_commands_that_change_how_it_plays_publish_at_once() {
    let mut player = player();
    assert!(send(&mut player, Opcode::Pause, Payload::Nothing).publish);
    assert!(send(&mut player, Opcode::Resume, Payload::Nothing).publish);
    assert!(!send(&mut player, Opcode::Stop, Payload::Nothing).publish);
    assert!(!send(&mut player, Opcode::Ping, Payload::Nothing).publish);
    assert!(!send(&mut player, Opcode::RequestQueue, Payload::Nothing).publish);
}
