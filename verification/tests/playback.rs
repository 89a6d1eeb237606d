use librespot_uwp::config::{AuthenticationType, Credentials};
use librespot_uwp::errors::ErrorKind;
use librespot_uwp::events::{
    repeat_switches, AudioItem, PlayerEvent, RunnerState, UniqueFields,
};
use librespot_uwp::ffi_types::{AudioFormat, Bitrate, EventType};
use librespot_uwp::ids::FileId;
use librespot_uwp::logger::{log_message, LogLevel};
use librespot_uwp::offline::{
    choose_file, persisted_entry, preferred_formats, AudioFileFormat, OfflineIndex,
    OfflineTrackIndexEntry,
};
use librespot_uwp::persistence::{PersistCall, PersistReply, PersistRun, PersistStep, CHUNK_LEN};
use librespot_uwp::runner::{
    LibrespotCommand, RunnerAction, RunnerLoop, FIRST_BACKOFF_MS, MAX_BACKOFF_MS,
};

fn item() -> AudioItem {
    AudioItem {
        uri: "spotify:track:abc".to_owned(),
        name: "A\0B".to_owned(),
        duration_ms: 1_234,
        is_explicit: true,
        covers: vec!["cover".to_owned(), "other".to_owned()],
        unique_fields: UniqueFields::Track {
            artists: vec!["One".to_owned(), "Two".to_owned()],
            album: "Album".to_owned(),
        },
    }
}

fn state() -> RunnerState {
    RunnerState::new(AudioFormat::S24_3, 44_100)
}

#[test]
fn a_new_track_starts_at_its_beginning() {
    let mut state = state();
    assert_eq!((state.bytes_per_sample, state.sample_rate), (3, 44_100));
    state.position_ms = 99;
    let event = PlayerEvent::TrackChanged {
        audio_item: item(),
        play_request_id: 5,
        audio_generation: 8,
        was_preloaded: true,
    };
    let record = state.handle_player_event(event, 1_000);
    assert_eq!(record.event_type, EventType::TrackChanged);
    assert_eq!((record.play_request_id, record.audio_generation), (5, 8));
    assert!(record.was_preloaded);
    let track = record.track.unwrap();
    assert_eq!((track.name.as_str(), track.artist.as_str()), ("", "One"));
    assert_eq!((track.album.as_str(), track.cover_url.as_str()), ("Album", "cover"));
    assert_eq!((state.position_ms, state.sync_write_pos, state.duration_ms), (0, 1_000, 1_234));
    assert_eq!(state.current_track.as_ref().unwrap().uri, "spotify:track:abc");
    assert_eq!(state.bytes_since_sync(1_000), None);
    assert_eq!(state.bytes_since_sync(1_500), Some(500));
}

#[test]
fn unknown_artists_and_albums_have_names() {
    let mut state = state();
    let mut audio_item = item();
    audio_item.unique_fields = UniqueFields::Other;
    audio_item.covers.clear();
    let event = PlayerEvent::TrackChanged {
        audio_item,
        play_request_id: 0,
        audio_generation: 0,
        was_preloaded: false,
    };
    let track = state.handle_player_event(event, 0).track.unwrap();
    assert_eq!((track.artist.as_str(), track.album.as_str()), ("Unknown Artist", "Unknown Album"));
    assert_eq!(track.cover_url, "");
}

#[test]
fn positions_are_told_and_remembered() {
    let mut state = state();
    let track_id = "spotify:track:x".to_owned();
    let playing = PlayerEvent::Playing { play_request_id: 1, track_id, position_ms: 10 };
    let record = state.handle_player_event(playing, 3);
    assert_eq!(record.event_type, EventType::PlaybackResumed);
    assert!(record.is_playing && state.is_playing);
    assert_eq!(record.track_uri.as_deref(), Some("spotify:track:x"));
    let seeked = PlayerEvent::Seeked {
        play_request_id: 1,
        track_id: "u".to_owned(),
        position_ms: 20,
        audio_generation: 4,
    };
    assert_eq!(state.handle_player_event(seeked, 5).audio_generation, 4);
    assert_eq!((state.position_ms, state.sync_write_pos, state.audio_generation), (20, 5, 4));
    let stopped = PlayerEvent::Stopped { play_request_id: 2, track_id: "u".to_owned() };
    let record = state.handle_player_event(stopped, 6);
    assert_eq!(record.event_type, EventType::PlaybackStopped);
    assert_eq!((record.audio_generation, state.is_playing), (4, false));
    assert_eq!(state.position_ms, 20);
}

#[test]
fn every_event_has_its_type() {
    let mut state = state();
    let id = || "u".to_owned();
    let events = vec![
        (
            PlayerEvent::Paused { play_request_id: 0, track_id: id(), position_ms: 0 },
            EventType::PlaybackPaused,
        ),
        (
            PlayerEvent::Loading { play_request_id: 0, track_id: id(), position_ms: 0 },
            EventType::PlaybackLoading,
        ),
        (
            PlayerEvent::PositionCorrection { play_request_id: 0, track_id: id(), position_ms: 0 },
            EventType::PositionCorrection,
        ),
        (
            PlayerEvent::PositionChanged { play_request_id: 0, track_id: id(), position_ms: 0 },
            EventType::PositionChanged,
        ),
        (PlayerEvent::AutoPlayChanged { auto_play: true }, EventType::AutoPlayChanged),
        (
            PlayerEvent::FilterExplicitContentChanged { filter: true },
            EventType::ExplicitFilterChanged,
        ),
        (PlayerEvent::SessionConnected { user_name: id() }, EventType::SessionConnected),
        (PlayerEvent::SessionDisconnected { user_name: id() }, EventType::SessionDisconnected),
        (PlayerEvent::SessionClientChanged { client_name: id() }, EventType::ClientChanged),
        (PlayerEvent::AddedToQueue { track_id: id() }, EventType::AddedToQueue),
        (PlayerEvent::Preloading { track_id: id() }, EventType::Preloading),
        (
            PlayerEvent::TimeToPreloadNextTrack { play_request_id: 0, track_id: id() },
            EventType::TimeToPreloadNextTrack,
        ),
        (PlayerEvent::EndOfTrack { play_request_id: 0, track_id: id() }, EventType::EndOfTrack),
        (
            PlayerEvent::Unavailable { play_request_id: 0, track_id: id() },
            EventType::PlaybackUnavailable,
        ),
        (
            PlayerEvent::PlayRequestIdChanged { play_request_id: 3 },
            EventType::PlayRequestIdChanged,
        ),
    ];
    for (event, expected) in events {
        assert_eq!(state.handle_player_event(event, 0).event_type, expected);
    }
}

#[test]
fn modes_of_repetition_come_back() {
    let mut state = state();
    for mode in 0..3 {
        let (context, track) = repeat_switches(mode);
        let record = state.handle_player_event(PlayerEvent::RepeatChanged { context, track }, 0);
        assert_eq!((record.repeat_mode, state.repeat), (mode, mode));
    }
    state.handle_player_event(PlayerEvent::ShuffleChanged { shuffle: true }, 0);
    state.handle_player_event(PlayerEvent::VolumeChanged { volume: 7 }, 0);
    assert!(state.shuffle);
    assert_eq!(state.volume, 7);
}

type Action = RunnerAction<u8, u8>;
type Command = LibrespotCommand<u8, u8>;

fn run(this: &mut RunnerLoop, command: Command) -> Vec<Action> {
    this.handle_command(&mut state(), command)
}

fn connected() -> RunnerLoop {
    let mut this = RunnerLoop::new(None, false, 0);
    run(&mut this, Command::UpdateCredentials { username: "u".into(), auth_data: "p".into() });
    let _: Vec<Action> = this.begin_connect(false);
    let _: Vec<Action> = this.end_connect(true, 0);
    this
}

#[test]
fn attempts_to_connect_are_spaced_out() {
    let mut this = RunnerLoop::new(None, false, 0);
    assert!(!this.connect_due());
    run(&mut this, Command::UpdateCredentials { username: "u".into(), auth_data: "p".into() });
    assert!(this.connect_due());
    let creds = this.last_creds.as_ref().unwrap();
    assert_eq!(creds.auth_type, AuthenticationType::UserPass);
    let mut delays = Vec::new();
    for _ in 0..7 {
        let _: Vec<Action> = this.begin_connect(false);
        let actions: Vec<Action> = this.end_connect(false, 1_000_000);
        assert!(actions.is_empty());
        delays.push(this.next_connect_attempt - 1_000_000);
    }
    assert_eq!(delays, vec![1_000, 2_000, 4_000, 8_000, 16_000, 30_000, 30_000]);
    assert_eq!(this.connect_backoff, MAX_BACKOFF_MS);
    let actions: Vec<Action> = this.end_connect(true, 5);
    assert!(matches!(actions.as_slice(), [Action::EmitConnected]));
    assert_eq!(this.connect_backoff, FIRST_BACKOFF_MS);
    assert!(!this.connect_due());
    let actions: Vec<Action> = this.task_ended(50);
    assert!(matches!(actions.as_slice(), [Action::EmitDisconnected]));
    assert!(this.connect_due());
    assert_eq!(this.next_connect_attempt, 1_050);
}

#[test]
fn commands_need_a_connection_or_do_without() {
    let mut alone = RunnerLoop::new(None, false, 0);
    let mut this = connected();
    assert!(run(&mut alone, Command::Next).is_empty());
    assert!(matches!(
        run(&mut this, Command::Next).as_slice(),
        [Action::ActivateConnection, Action::NextTrack]
    ));
    assert!(matches!(
        run(&mut this, Command::Prev).as_slice(),
        [Action::ActivateConnection, Action::PreviousTrack]
    ));
    assert!(matches!(run(&mut alone, Command::Play).as_slice(), [Action::StartPlayer]));
    assert!(matches!(run(&mut alone, Command::Pause).as_slice(), [Action::PausePlayer]));
    assert!(matches!(run(&mut alone, Command::Stop).as_slice(), [Action::StopPlayer]));
    assert!(matches!(run(&mut alone, Command::Seek(4)).as_slice(), [Action::SeekPlayer(4)]));
    assert!(run(&mut alone, Command::SetShuffle(true)).is_empty());
    assert!(matches!(
        run(&mut this, Command::SetShuffle(true)).as_slice(),
        [Action::SetShuffle(true)]
    ));
    assert!(matches!(
        run(&mut this, Command::SetRepeatContext(true)).as_slice(),
        [Action::SetRepeat(true)]
    ));
    assert!(matches!(
        run(&mut this, Command::SetRepeatTrack(false)).as_slice(),
        [Action::SetRepeatTrack(false)]
    ));
    let keep = Command::SetTrackPersisted { track_uri: "t".into(), persisted: true, result_tx: 1 };
    assert!(matches!(run(&mut alone, keep).as_slice(), [Action::KeepTrack(_, true, 1)]));
    let ask = Command::GetAppData { kind: 3, argument: "a".into(), result_tx: 2 };
    assert!(matches!(run(&mut alone, ask).as_slice(), [Action::AnswerAppData(3, _, 2)]));
    assert!(matches!(
        run(&mut this, Command::Shutdown).as_slice(),
        [Action::StopPlayer, Action::ShutDownConnection, Action::Exit]
    ));
    assert!(matches!(
        run(&mut alone, Command::StartDiscovery).as_slice(),
        [Action::LaunchDiscovery]
    ));
    alone.discovery_launched(true);
    assert!(run(&mut alone, Command::StartDiscovery).is_empty());
    alone.discovered(None);
    assert!(!alone.connect_due());
    let mut remembered = state();
    let actions = alone.handle_command(&mut remembered, Command::SetVolume(11));
    assert!(matches!(
        actions.as_slice(),
        [Action::SetMixerVolume(11), Action::EmitVolume(11)]
    ));
    assert_eq!(remembered.volume, 11);
}

fn entry(uri: &str, hex: &str) -> OfflineTrackIndexEntry {
    let mut entry = persisted_entry(uri, &item(), 2, FileId([17; 20]));
    entry.file_id_hex = hex.to_owned();
    entry
}

fn load(
    this: &RunnerLoop,
    state: &mut RunnerState,
    index: &OfflineIndex,
    context: &str,
    start: Option<&str>,
    valid: (bool, bool),
) -> Vec<Action> {
    let tracks = Some(vec!["spotify:track:1".to_owned()]);
    let start = start.map(str::to_owned);
    this.handle_load(state, index, &[1, 2], 40, context.to_owned(), start, tracks, true, valid.0, valid.1)
}

#[test]
fn loading_prefers_what_is_kept() {
    let mut index = OfflineIndex::new();
    let uri = "spotify:track:abc";
    index.insert(persisted_entry(uri, &item(), 2, FileId([17; 20])));
    let (alone, this) = (RunnerLoop::new(None, false, 0), connected());
    let mut state = state();
    state.repeat = 2;
    match load(&this, &mut state, &index, uri, None, (true, true)).as_slice() {
        [Action::StopPlayer, Action::LoadOffline(load, true)] => {
            assert_eq!(load.file_id, FileId([17; 20]));
            assert_eq!((load.artist.as_str(), load.duration_ms), ("One", 1_234));
        }
        other => panic!("{other:?}"),
    }
    assert_eq!(state.sync_write_pos, 40);
    match load(&this, &mut state, &index, "spotify:album:x", Some(uri), (true, true)).as_slice() {
        [Action::StopPlayer, Action::ActivateConnection, Action::LoadByConnection(request)] => {
            assert_eq!(request.playing_track, uri);
            assert_eq!((request.repeat, request.repeat_track), (false, true));
            assert_eq!(request.tracks.as_ref().unwrap().len(), 1);
        }
        other => panic!("{other:?}"),
    }
    assert!(matches!(
        load(&alone, &mut state, &index, "spotify:album:x", Some(uri), (true, true)).as_slice(),
        [Action::StopPlayer, Action::LoadOffline(_, true)]
    ));
    assert!(matches!(
        load(&alone, &mut state, &index, "spotify:track:other", None, (true, true)).as_slice(),
        [Action::StopPlayer, Action::LoadDirectly(_, true)]
    ));
    assert!(matches!(
        load(&alone, &mut state, &index, "spotify:album:x", Some("?"), (true, false)).as_slice(),
        [Action::StopPlayer]
    ));
    assert!(load(&alone, &mut state, &index, "?", None, (false, false)).is_empty());
}

#[test]
fn the_index_keeps_the_last_word() {
    let hex = "11".repeat(20);
    let mut index = OfflineIndex::from_entries(vec![
        entry("a", "first"),
        entry("b", &hex),
        entry("a", "second"),
    ]);
    assert_eq!(index.entries.len(), 2);
    assert_eq!(index.get("a").unwrap().file_id_hex, "second");
    assert_eq!(index.kept_file("a"), None);
    assert_eq!(index.kept_file("b"), Some(FileId([17; 20])));
    assert!(index.offline_track("b", true, &[1]).is_none());
    assert!(index.offline_track("b", false, &[2]).is_none());
    assert!(index.offline_track("a", true, &[2]).is_none());
    assert!(index.offline_track("b", true, &[1, 2]).is_some());
    index.remove("b");
    assert!(!index.contains("b"));
    assert!(index.contains("a"));
}

#[test]
fn the_best_format_is_kept() {
    let files = vec![
        (AudioFileFormat::Mp3At320, FileId([1; 20])),
        (AudioFileFormat::OggVorbis160, FileId([2; 20])),
        (AudioFileFormat::OggVorbis160, FileId([3; 20])),
    ];
    let best = |bitrate| choose_file(&preferred_formats(bitrate), &files).unwrap().1;
    assert_eq!(best(Bitrate::B96), FileId([2; 20]));
    assert_eq!(best(Bitrate::B160), FileId([2; 20]));
    assert_eq!(best(Bitrate::B320), FileId([1; 20]));
    assert!(choose_file(&preferred_formats(Bitrate::B96), &vec![]).is_none());
}

type Reply = PersistReply<&'static str>;

fn keep(run: &mut PersistRun, reply: Reply) -> PersistStep<&'static str> {
    run.advance(&preferred_formats(Bitrate::B160), reply)
}

#[test]
fn a_track_is_fetched_whole_and_then_kept() {
    let index = OfflineIndex::new();
    let mut run = PersistRun::set_track_persisted(&index, "t", true);
    let mut calls = Vec::new();
    let (mut ranges, mut looks) = (Vec::new(), 0);
    loop {
        calls.push(run.plan.call);
        let reply = match run.plan.call {
            PersistCall::FetchItem => {
                Reply::Files(vec![(AudioFileFormat::Mp3At96, FileId([5; 20]))])
            }
            PersistCall::CheckPersisted => Reply::No,
            PersistCall::OpenFile => Reply::Length(2 * CHUNK_LEN + 7),
            PersistCall::FetchRange => {
                ranges.push(run.range());
                Reply::Done
            }
            PersistCall::CheckCached => {
                looks += 1;
                if looks == 3 {
                    Reply::Yes
                } else {
                    Reply::No
                }
            }
            PersistCall::KeepLyrics | PersistCall::PrefetchLyrics => Reply::Failed("ignored"),
            _ => Reply::Done,
        };
        match keep(&mut run, reply) {
            PersistStep::Call => {}
            PersistStep::Done => break,
            _ => panic!("the track can be kept"),
        }
    }
    assert_eq!(
        ranges,
        vec![(0, CHUNK_LEN), (CHUNK_LEN, CHUNK_LEN), (2 * CHUNK_LEN, 7)]
    );
    assert_eq!(run.file, FileId([5; 20]));
    assert_eq!(run.plan.format, AudioFileFormat::Mp3At96);
    let stored = calls.iter().position(|call| *call == PersistCall::StoreEntry).unwrap();
    assert_eq!(calls[stored - 1], PersistCall::KeepFile);
    assert_eq!(calls.last(), Some(&PersistCall::PrefetchLyrics));
}

#[test]
fn tracks_are_refused_for_a_reason() {
    let index = OfflineIndex::new();
    let mut run = PersistRun::set_track_persisted(&index, "t", true);
    assert!(matches!(keep(&mut run, Reply::Failed("gate")), PersistStep::Failed("gate")));
    keep(&mut run, Reply::Done);
    assert!(matches!(
        keep(&mut run, Reply::NotATrack),
        PersistStep::Refused(
            ErrorKind::InvalidArgument,
            "track URI is not a playable Spotify track"
        )
    ));
    keep(&mut run, Reply::Done);
    assert!(matches!(
        keep(&mut run, Reply::Files(vec![])),
        PersistStep::Refused(ErrorKind::Unavailable, "track has no supported audio file")
    ));
    run.plan.call = PersistCall::CheckCached;
    let mut looks = 0;
    loop {
        looks += 1;
        keep(&mut run, Reply::No);
        match keep(&mut run, Reply::Done) {
            PersistStep::Call => {}
            PersistStep::Refused(kind, message) => {
                assert_eq!(kind, ErrorKind::DeadlineExceeded);
                assert_eq!(message, "timed out waiting for cached track file");
                break;
            }
            _ => panic!("the file never came"),
        }
    }
    assert_eq!(looks, 100);
}

#[test]
fn a_track_is_given_up_with_its_lyrics() {
    let mut index = OfflineIndex::new();
    index.insert(persisted_entry("t", &item(), 0, FileId([6; 20])));
    let mut run = PersistRun::set_track_persisted(&index, "t", false);
    assert_eq!((run.plan.call, run.file), (PersistCall::CheckKept, FileId([6; 20])));
    let mut calls = Vec::new();
    let mut reply = Reply::Yes;
    while let PersistStep::Call = keep(&mut run, reply) {
        calls.push(run.plan.call);
        reply = Reply::Done;
    }
    assert_eq!(
        calls,
        vec![PersistCall::ReleaseFile, PersistCall::RemoveEntry, PersistCall::RemoveLyrics]
    );
    let run = PersistRun::set_track_persisted(&index, "unknown", false);
    assert_eq!(run.plan.call, PersistCall::RemoveEntry);
}

#[test]
fn setbacks_in_a_row_lengthen_the_delay() {
    let credentials = Credentials::with_access_token("token");
    let mut this = RunnerLoop::new(Some(credentials), false, 0);
    for _ in 0..2 {
        for (k, delay) in [1_000, 2_000, 4_000, 8_000, 16_000, 30_000, 30_000].iter().enumerate() {
            let now = 100 * k as u64;
            let actions: Vec<Action> =
                if k % 2 == 0 { this.end_connect(false, now) } else { this.task_ended(now) };
            assert_eq!(actions.len(), k % 2);
            this.discovered(Some(Credentials::with_access_token("other")));
            let _: Vec<Action> = this.begin_connect(false);
            assert_eq!(this.next_connect_attempt, now + delay);
        }
        let actions: Vec<Action> = this.end_connect(true, 7);
        assert!(matches!(actions.as_slice(), [RunnerAction::EmitConnected]));
        assert_eq!(this.next_connect_attempt, 7);
        this.discovered(Some(Credentials::with_access_token("again")));
    }
}

#[test]
fn messages_that_matter_are_told() {
    assert_eq!(log_message(LogLevel::Info, "hello").as_deref(), Some("INFO - hello"));
    assert_eq!(log_message(LogLevel::Warn, "").as_deref(), Some("WARN - "));
    assert_eq!(log_message(LogLevel::Debug, "hello"), None);
    assert_eq!(log_message(LogLevel::Trace, "a\0b"), None);
}
