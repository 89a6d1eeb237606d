use bytes::Bytes;
use librespot_uwp::audio_key::{
    key_outcome, AudioKey, AudioKeyError, AudioKeyManager, KeyReply, KeyRequest, KeyResponse,
    PacketType, KEY_RESPONSE_TIMEOUT_MS,
};
use librespot_uwp::cache::{
    access_time, missing_file, parse_volume, volume_text, Cache, CacheError, EntryKind,
    FsSizeLimiter, LimiterTask, PruneCall, PruneStep, Pruning, Removal, RetryOutcome,
};
use librespot_uwp::cache_path::{
    key_bytes, pending_lines, removed_key, CachePath, PendingDeletes,
};
use librespot_uwp::config::{
    parse_ffi_config, AuthenticationType, Credentials, LibrespotConfig,
};
use librespot_uwp::errors::ErrorKind;
use librespot_uwp::ffi_types::{AudioFormat, Bitrate};
use librespot_uwp::ids::{parse_file_id_hex, FileId, SpotifyId};
use librespot_uwp::path_reading::{PathPrefix, PathStyle, PrefixKind};
use librespot_uwp::size_limiter::SizeLimiter;
use std::path::Path;

fn ordered_time(v: u64) -> i128 {
    i128::from(v) * 1_000_000_000
}

fn path(text: &str) -> CachePath {
    CachePath::read(text.to_owned(), None, PathStyle::Unix)
}

fn windows(text: &str, kind: PrefixKind, len: usize) -> CachePath {
    CachePath::read(text.to_owned(), Some(PathPrefix { kind, len }), PathStyle::Windows)
}

/// The path that a limiter gives up, as it is written.
fn popped(limiter: &mut SizeLimiter) -> Option<String> {
    limiter.pop().map(|path| path.text)
}

#[test]
fn test_size_limiter() {
    let mut limiter = SizeLimiter::new(1000);

    limiter.add(&path("a"), 500, ordered_time(2));
    limiter.add(&path("b"), 500, ordered_time(1));

    // b (500) -> a (500)  => sum: 1000 <= 1000
    assert!(!limiter.exceeds_limit());
    assert_eq!(popped(&mut limiter), None);

    limiter.add(&path("c"), 1000, ordered_time(3));

    // b (500) -> a (500) -> c (1000)  => sum: 2000 > 1000
    assert!(limiter.exceeds_limit());
    assert_eq!(popped(&mut limiter).as_deref(), Some("b"));
    // a (500) -> c (1000)  => sum: 1500 > 1000
    assert_eq!(popped(&mut limiter).as_deref(), Some("a"));
    // c (1000)   => sum: 1000 <= 1000
    assert_eq!(popped(&mut limiter).as_deref(), None);

    limiter.add(&path("d"), 5, ordered_time(2));
    // d (5) -> c (1000) => sum: 1005 > 1000
    assert_eq!(popped(&mut limiter).as_deref(), Some("d"));
    // c (1000)   => sum: 1000 <= 1000
    assert_eq!(popped(&mut limiter).as_deref(), None);

    // Test updating

    limiter.add(&path("e"), 500, ordered_time(3));
    //  c (1000) -> e (500)  => sum: 1500 > 1000
    assert!(limiter.update(&path("c"), ordered_time(4)));
    // e (500) -> c (1000)  => sum: 1500 > 1000
    assert_eq!(popped(&mut limiter).as_deref(), Some("e"));
    // c (1000)  => sum: 1000 <= 1000

    // Test removing
    limiter.add(&path("f"), 500, ordered_time(2));
    assert!(limiter.remove(&path("c")));
    assert!(!limiter.exceeds_limit());
}

#[test]
fn unknown_files_are_neither_updated_nor_removed() {
    let mut limiter = SizeLimiter::new(10);
    assert!(!limiter.update(&path("a"), 1));
    assert!(!limiter.remove(&path("a")));
    limiter.add(&path("a"), 20, 1);
    limiter.add(&path("a"), 5, 2);
    assert!(!limiter.exceeds_limit());
}

fn file() -> FileId {
    let mut raw = [0u8; 20];
    for (i, byte) in raw.iter_mut().enumerate() {
        *byte = i as u8 * 13;
    }
    FileId(raw)
}

const FILE_HEX: &str = "000d1a2734414e5b6875828f9ca9b6c3d0ddeaf7";

#[test]
fn file_identifiers_read_back() {
    assert_eq!(file().to_base16(), FILE_HEX);
    assert_eq!(parse_file_id_hex(FILE_HEX), Some(file()));
    assert_eq!(parse_file_id_hex(&FILE_HEX.to_uppercase()), Some(file()));
    assert_eq!(parse_file_id_hex("xy"), None);
    assert_eq!(parse_file_id_hex("abc"), None);
}

#[test]
fn paths_compare_by_their_parts() {
    assert!(path("/a//b/").same(&path("/a/b")));
    assert!(!path("a/b").same(&path("/a/b")));
    assert!(path("/a/b/c").starts_with(&path("/a/b")));
    assert!(!path("/a/bc").starts_with(&path("/a/b")));
    assert!(path("a").before(&path("a/b")));
    assert!(path("a/b").before(&path("b")));
    assert!(path("/z").before(&path("a")));
    assert!(path("./a/./b/.").same(&path("./a/b")));
    assert!(!path("./a").same(&path("a")));
    assert!(!path("a/../b").same(&path("b")));
    assert!(!path("a\\b").same(&path("a/b")));
    let inside = |text: &str, root: &str| {
        path(text).strip_prefix(&path(root)).map(|path| path.text)
    };
    assert_eq!(inside("/a/b/c", "/a").as_deref(), Some("b/c"));
    assert_eq!(inside("/a//b//c/", "/a").as_deref(), Some("b//c"));
    assert_eq!(inside("/a/b", "/a/b/").as_deref(), Some(""));
    assert_eq!(inside("/x", "/a"), None);
}

#[test]
fn paths_agree_with_those_of_the_system() {
    let texts = [
        "", ".", "..", "/", "//", "a", "a/", "a//b", "a/b", "/a/b", "/a/./b/", "./a", "a/.", "/.",
        "../a", "a/../b", "a\\b", "...", "/a", "a/b/c", "/a//b/c/.", "./", "./.", "C:/a",
    ];
    for first in texts {
        let (mine, theirs) = (path(first), Path::new(first));
        assert_eq!(mine.parts.len(), theirs.components().count(), "{first}");
        let continued = Cache::new(None, Some(path(first)), None, None, false).volume_location;
        assert_eq!(Some(continued.unwrap().text.as_str()), theirs.join("volume").to_str());
        for second in texts {
            let (other, root) = (path(second), Path::new(second));
            assert_eq!(mine.same(&other), theirs == root, "{first} {second}");
            assert_eq!(mine.before(&other), theirs < root, "{first} {second}");
            assert_eq!(mine.starts_with(&other), theirs.starts_with(root), "{first} {second}");
            assert_eq!(
                mine.strip_prefix(&other).map(|path| path.text).as_deref(),
                theirs.strip_prefix(root).ok().and_then(|path| path.to_str()),
                "{first} {second}"
            );
        }
    }
}

#[test]
fn paths_of_windows_know_two_separators_and_prefixes() {
    let drive = |text: &str| windows(text, PrefixKind::Drive, 2);
    assert!(drive("C:\\a/b").same(&drive("c:/a\\\\b\\")));
    assert!(!drive("C:\\a").same(&drive("C:a")));
    assert!(!drive("C:\\a").same(&drive("D:\\a")));
    let verbatim = windows("\\\\?\\C:\\a/b", PrefixKind::VerbatimDrive, 6);
    assert!(!verbatim.same(&windows("\\\\?\\C:\\a\\b", PrefixKind::VerbatimDrive, 6)));
    let inside = drive("C:\\cache\\audio/ab\\cd").strip_prefix(&drive("c:/cache/audio"));
    assert_eq!(inside.unwrap().text, "ab\\cd");
    assert!(windows("C:", PrefixKind::Drive, 3).prefix.is_none());
    assert!(CachePath::read(
        "C:".to_owned(),
        Some(PathPrefix { kind: PrefixKind::Drive, len: 2 }),
        PathStyle::Unix
    )
    .prefix
    .is_none());
}

#[test]
fn names_continue_paths_of_windows() {
    let volume = |root: CachePath| {
        let cache = Cache::new(None, Some(root), None, None, false);
        cache.volume_location.unwrap().text
    };
    let drive = |text: &str| windows(text, PrefixKind::Drive, 2);
    assert_eq!(volume(drive("C:\\cache")), "C:\\cache\\volume");
    assert_eq!(volume(drive("C:\\cache/")), "C:\\cache/volume");
    assert_eq!(volume(drive("C:/cache")), "C:/cache\\volume");
    assert_eq!(volume(drive("C:")), "C:volume");
    assert_eq!(volume(windows("\\\\s\\h", PrefixKind::Unc, 5)), "\\\\s\\h\\volume");
    let verbatim = windows("\\\\?\\C:\\a\\\\b\\", PrefixKind::VerbatimDrive, 6);
    assert_eq!(volume(verbatim), "\\\\?\\C:\\a\\b\\volume");
    assert_eq!(volume(path("")), "volume");
    assert_eq!(volume(path("/")), "/volume");
    assert_eq!(volume(path("/a\\")), "/a\\/volume");
}

#[test]
fn a_file_is_known_once_however_it_is_written() {
    let mut limiter = SizeLimiter::new(100);
    limiter.add(&path("a//b"), 60, 1);
    limiter.add(&path("a/b/"), 70, 2);
    assert_eq!(limiter.in_use(), 70);
    assert!(limiter.update(&path("a/./b"), 3));
    limiter.add(&path("c"), 50, 4);
    assert_eq!(popped(&mut limiter).as_deref(), Some("a//b"));
    assert!(limiter.remove(&path("c/")));
    let drive = |text: &str| windows(text, PrefixKind::Drive, 2);
    limiter.add(&drive("C:\\cache/ab\\cd"), 60, 1);
    limiter.add(&drive("c:/cache\\ab/cd"), 90, 2);
    assert_eq!(limiter.in_use(), 90);
    limiter.add(&path("C:/cache"), 5, 2);
    assert_eq!(limiter.in_use(), 95);
}

#[test]
fn due_deletions_are_listed_once_and_in_order() {
    assert_eq!(pending_lines(" b/x \r\n\n  \na/y\nb/x"), vec!["b/x", "a/y", "b/x"]);
    let lines = pending_lines("b/x\na/y\nb//x\n");
    let mut pending = PendingDeletes::from_paths(lines.iter().map(|line| path(line)).collect());
    assert_eq!(pending.contents(), "a/y\nb/x\n");
    pending.insert(path("a/b"));
    assert!(pending.remove(&path("b/x")));
    assert!(!pending.remove(&path("b/x")));
    assert_eq!(pending.contents(), "a/b\na/y\n");
    assert_eq!(PendingDeletes::none().contents(), "");
}

#[test]
fn names_spell_identifiers() {
    assert_eq!(key_bytes("0aFf+7"), Some(vec![10, 255, 7]));
    assert_eq!(key_bytes("0a0"), None);
    assert_eq!(key_bytes("zz"), None);
    assert_eq!(key_bytes(""), Some(vec![]));
    assert_eq!(removed_key(&path("/c/0a/ff")), Some(vec![10, 255]));
    assert_eq!(removed_key(&path("ff")), None);
    assert_eq!(removed_key(&path("/c/../ff")), None);
}

fn limiter() -> FsSizeLimiter {
    FsSizeLimiter::new(&path("/cache/audio"), 100)
}

#[test]
fn the_cache_directory_is_searched() {
    let mut limiter = limiter();
    assert!(limiter.init_entry(&path("/cache/audio/ab"), EntryKind::Directory, None));
    assert!(limiter.init_entry(&path("/cache/audio/link"), EntryKind::Symlink, None));
    assert!(!limiter.init_entry(&path("/cache/audio/ab/cd"), EntryKind::File, Some((5, 90))));
    assert!(!limiter.init_entry(&path("/cache/audio/ab/ef"), EntryKind::File, Some((4, 90))));
    assert!(!limiter.init_entry(&path("/cache/audio/ab/gh"), EntryKind::File, None));
    assert!(!limiter.init_entry(&path("/cache/audio/dev"), EntryKind::Other, Some((1, 1))));
    assert!(!limiter.init_entry(
        &path("/cache/audio/.pending_delete"),
        EntryKind::File,
        Some((1, 900))
    ));
    assert_eq!(popped(&mut limiter.limiter).as_deref(), Some("/cache/audio/ab/ef"));
    assert_eq!(popped(&mut limiter.limiter), None);
    assert_eq!(limiter.pending_delete_file.text, "/cache/audio/.pending_delete");
    assert_eq!(access_time(None, Some(3), Some(2), 1), 3);
    assert_eq!(access_time(None, None, None, 1), 1);
}

#[test]
fn failed_deletions_are_tried_again() {
    let limiter = limiter();
    let mut pending = PendingDeletes::none();
    let inside = path("/cache/audio/0a/ff");
    assert_eq!(limiter.pruned(&mut pending, &inside, false), None);
    assert_eq!(pending.contents(), "0a/ff\n");
    assert_eq!(limiter.pruned(&mut pending, &path("/elsewhere"), false), None);
    assert_eq!(pending.contents(), "0a/ff\n");
    assert_eq!(limiter.retried(&mut pending, &inside, RetryOutcome::Failed), None);
    assert_eq!(pending.contents(), "0a/ff\n");
    assert_eq!(
        limiter.retried(&mut pending, &inside, RetryOutcome::Deleted),
        Some(vec![10, 255])
    );
    assert_eq!(pending.contents(), "");
    limiter.enqueue_pending_delete(&mut pending, &path("/cache//audio/0a//ff"));
    assert_eq!(pending.contents(), "0a//ff\n");
    assert_eq!(limiter.retried(&mut pending, &inside, RetryOutcome::Gone), None);
    assert_eq!(pending.contents(), "");
    assert_eq!(limiter.pruned(&mut pending, &inside, true), Some(vec![10, 255]));
}

#[test]
fn pruning_keeps_the_limit() {
    let mut limiter = SizeLimiter::new(100);
    for (name, time) in [("a", 3), ("b", 1), ("c", 2)] {
        limiter.add(&path(name), 50, time);
    }
    limiter.add(&path("d"), 90, 4);
    let mut pruning = Pruning::new();
    assert_eq!(pruning.call, PruneCall::RetryDue);
    let mut given_up = Vec::new();
    loop {
        let result = match pruning.call {
            PruneCall::Delete => {
                let file = pruning.file.as_ref().unwrap().text.clone();
                let result = if file == "c" { Err("kept open") } else { Ok(()) };
                given_up.push(file);
                result
            }
            _ => Ok(()),
        };
        match pruning.advance(&mut limiter, result) {
            PruneStep::Call => {}
            PruneStep::Finished(result) => {
                assert_eq!(result, Err("kept open"));
                break;
            }
        }
    }
    assert_eq!(given_up, vec!["b", "c", "a"]);
    assert!(!limiter.exceeds_limit());
    let mut pruning: Pruning<()> = Pruning::new();
    assert!(matches!(pruning.advance(&mut limiter, Ok(())), PruneStep::Call));
    assert_eq!(pruning.call, PruneCall::RetryAgain);
    assert!(matches!(pruning.advance(&mut limiter, Ok(())), PruneStep::Finished(Ok(()))));
}

#[test]
fn changes_of_files_are_settled() {
    let mut limiter = limiter();
    let mut pending = PendingDeletes::none();
    let (first, second) = (path("/cache/audio/0a/ff"), path("/cache/audio/0a/fe"));
    assert!(limiter.settle(&mut pending, LimiterTask::AddWritten, &first, 60, 1));
    assert!(limiter.settle(&mut pending, LimiterTask::Measure, &second, 60, 2));
    assert!(!limiter.settle(&mut pending, LimiterTask::Touch, &first, 0, 3));
    assert_eq!(popped(&mut limiter.limiter).as_deref(), Some("/cache/audio/0a/fe"));
    assert!(!limiter.settle(&mut pending, LimiterTask::Retry, &first, 0, 4));
    assert_eq!(pending.contents(), "0a/ff\n");
    assert!(!limiter.limiter.remove(&first));
    assert!(limiter.settle(&mut pending, LimiterTask::AddWritten, &first, 160, 5));
    assert_eq!(pending.contents(), "");
    assert!(!limiter.settle(&mut pending, LimiterTask::Forget, &first, 0, 6));
    assert_eq!(popped(&mut limiter.limiter), None);
    assert!(!limiter.settle(&mut pending, LimiterTask::Nothing, &first, 0, 7));
    assert!(LimiterTask::Forget.needs_list() && !LimiterTask::Measure.needs_list());
    let (kind, message) = missing_file("\"/x\"");
    assert_eq!(kind, ErrorKind::NotFound);
    assert_eq!(message, "cache file not found: \"/x\"");
}

fn cache(limited: bool) -> Cache {
    Cache::new(
        Some(path("/cache")),
        Some(path("/cache")),
        Some(path("/cache/audio")),
        Some(path("/kept/audio")),
        limited,
    )
}

#[test]
fn files_have_their_places() {
    let cache = cache(true);
    let name = format!("{}/{}", &FILE_HEX[..2], &FILE_HEX[2..]);
    assert_eq!(cache.credentials_location.as_ref().unwrap().text, "/cache/credentials.json");
    assert_eq!(cache.volume_location.as_ref().unwrap().text, "/cache/volume");
    let volatile = cache.volatile_file_path(file()).unwrap();
    assert_eq!(volatile.text, format!("/cache/audio/{name}"));
    let kept = cache.persisted_file_path(file()).unwrap();
    assert_eq!(kept.text, format!("/kept/audio/{name}"));
    assert_eq!(cache.file_path(file(), true, true).unwrap().text, kept.text);
    assert_eq!(cache.file_path(file(), false, true).unwrap().text, volatile.text);
    assert_eq!(cache.file_path(file(), false, false).unwrap().text, kept.text);
    assert_eq!(cache.opened(&volatile), LimiterTask::Touch);
    assert_eq!(cache.opened(&kept), LimiterTask::Nothing);
    let plan = cache.set_persisted(file(), true).unwrap();
    assert_eq!((plan.from.text, plan.to.text), (volatile.text.clone(), kept.text.clone()));
    assert_eq!(cache.moved(true), LimiterTask::Forget);
    assert_eq!(cache.moved(false), LimiterTask::Measure);
    let (saved, directory, task) = cache.save_file(file()).unwrap();
    assert_eq!(saved.text, volatile.text);
    assert_eq!(directory.text, format!("/cache/audio/{}", &FILE_HEX[..2]));
    assert_eq!(task, LimiterTask::AddWritten);
    assert_eq!(removed_key(&volatile), Some(file().0.to_vec()));
}

#[test]
fn without_directories_there_is_no_place() {
    let cache = Cache::new(None, None, None, None, true);
    assert!(!cache.limited);
    assert!(cache.file_path(file(), true, true).is_none());
    assert!(matches!(cache.set_persisted(file(), true), Err(CacheError::Path)));
    assert!(matches!(cache.save_file(file()), Err(CacheError::Path)));
    assert!(matches!(cache.remove_file(file(), true, true), Err(CacheError::Path)));
    assert_eq!(CacheError::Path.message(), "audio cache location is not configured");
    assert_eq!(CacheError::Path.kind(), ErrorKind::FailedPrecondition);
}

#[test]
fn volatile_files_count_as_deleted() {
    let cache = cache(true);
    let volatile = cache.remove_file(file(), false, true).unwrap();
    let kept = cache.remove_file(file(), true, true).unwrap();
    match cache.removed(file(), &volatile, false) {
        Removal::Done { task, notify } => {
            assert_eq!(task, LimiterTask::Retry);
            assert_eq!(notify, None);
        }
        Removal::Failed => panic!("the deletion is tried again"),
    }
    match cache.removed(file(), &volatile, true) {
        Removal::Done { task, notify } => {
            assert_eq!(task, LimiterTask::Forget);
            assert_eq!(notify, Some(file().0.to_vec()));
        }
        Removal::Failed => panic!("the file is gone"),
    }
    assert!(matches!(cache.removed(file(), &kept, false), Removal::Failed));
    assert!(matches!(
        cache.removed(file(), &kept, true),
        Removal::Done { task: LimiterTask::Nothing, .. }
    ));
}

#[test]
fn volumes_read_back() {
    for volume in [0, 7, 32_768, u16::MAX] {
        assert_eq!(parse_volume(&volume_text(volume)), Some(volume));
    }
    assert_eq!(parse_volume("65536"), None);
    assert_eq!(parse_volume("7\n"), None);
    assert_eq!(parse_volume("+7"), Some(7));
    assert_eq!(parse_volume(""), None);
}

fn reply(sequence: u32, rest: &[u8]) -> Bytes {
    let mut data = sequence.to_be_bytes().to_vec();
    data.extend_from_slice(rest);
    Bytes::from(data)
}

#[test]
fn keys_reach_whoever_asked() {
    let track = SpotifyId([9; 16]);
    let mut manager: AudioKeyManager<&str> = AudioKeyManager::new();
    let key = AudioKey([3; 16]);
    match manager.request(Some(key), "early", track, file()) {
        KeyRequest::Found(found) => assert_eq!(found, key),
        KeyRequest::Send { .. } => panic!("the frontend had the key"),
    }
    manager.sequence = u32::MAX;
    let packet = match manager.request(None, "first", track, file()) {
        KeyRequest::Send { sequence, packet } => {
            assert_eq!(sequence, u32::MAX);
            packet
        }
        KeyRequest::Found(_) => panic!("nobody had the key"),
    };
    assert_eq!(packet.len(), 42);
    assert_eq!(&packet[..20], &file().0);
    assert_eq!(&packet[20..36], &[9; 16]);
    assert_eq!(&packet[36..], &[255, 255, 255, 255, 0, 0]);
    assert_eq!(manager.sequence, 0);
    manager.request(None, "second", track, file());
    manager.request(None, "third", track, file());
    match manager.dispatch(PacketType::AesKey, reply(u32::MAX, &[7; 16])) {
        Ok((receiver, KeyReply::Key(key))) => {
            assert_eq!((receiver, key), ("first", AudioKey([7; 16])));
        }
        _ => panic!("the key was for the first"),
    }
    assert!(matches!(
        manager.dispatch(PacketType::AesKeyError, reply(0, &[0, 1])),
        Ok(("second", KeyReply::Refused))
    ));
    assert!(matches!(
        manager.dispatch(PacketType::AesKey, reply(0, &[7; 16])),
        Err(AudioKeyError::Sequence(0))
    ));
    assert!(matches!(
        manager.dispatch(PacketType::RequestKey, reply(1, &[])),
        Err(AudioKeyError::Packet(0x0c))
    ));
    assert!(matches!(
        manager.dispatch(PacketType::AesKey, reply(1, &[])),
        Err(AudioKeyError::Sequence(1))
    ));
}

#[test]
fn packets_of_a_wrong_length_come_to_nothing() {
    let mut manager: AudioKeyManager<&str> = AudioKeyManager::new();
    manager.request(None, "only", SpotifyId([9; 16]), file());
    assert!(manager.try_dispatch(PacketType::AesKey, Bytes::from_static(&[0, 0, 0])).is_none());
    assert!(manager.try_dispatch(PacketType::AesKey, reply(0, &[7; 15])).is_none());
    assert!(manager.try_dispatch(PacketType::AesKeyError, reply(0, &[7])).is_none());
    assert!(matches!(
        manager.try_dispatch(PacketType::AesKey, reply(5, &[])),
        Some(Err(AudioKeyError::Sequence(5)))
    ));
    assert!(matches!(
        manager.try_dispatch(PacketType::AesKey, reply(0, &[7; 16])),
        Some(Ok(("only", KeyReply::Key(AudioKey(key))))) if key == [7; 16]
    ));
}

#[test]
fn key_errors_say_what_happened() {
    let errors = [
        (AudioKeyError::AesKey, "audio key error", ErrorKind::Unavailable),
        (AudioKeyError::Channel, "other end of channel disconnected", ErrorKind::Aborted),
        (AudioKeyError::Packet(9), "unexpected packet type 9", ErrorKind::Unimplemented),
        (AudioKeyError::Sequence(12), "sequence 12 not pending", ErrorKind::Aborted),
        (AudioKeyError::Timeout, "audio key response timeout", ErrorKind::Aborted),
    ];
    for (error, message, kind) in errors {
        assert_eq!(error.message(), message);
        assert_eq!(error.kind(), kind);
    }
    assert_eq!(key_outcome(KeyResponse::TimedOut), Err(AudioKeyError::Timeout));
    assert_eq!(key_outcome(KeyResponse::Disconnected), Err(AudioKeyError::Channel));
    assert_eq!(
        key_outcome(KeyResponse::Reply(KeyReply::Refused)),
        Err(AudioKeyError::AesKey)
    );
    let key = AudioKey([1; 16]);
    assert_eq!(key_outcome(KeyResponse::Reply(KeyReply::Key(key))), Ok(key));
    assert_eq!(KEY_RESPONSE_TIMEOUT_MS, 1_500);
    assert_eq!(PacketType::Other(4).as_raw(), 4);
}

fn config_with_authorization(
    access_token: Option<&str>,
    playback_credentials: Option<Result<Credentials, String>>,
) -> LibrespotConfig {
    LibrespotConfig {
        device_name: Some("LibreSpotUWP test".to_owned()),
        device_type: Some("speaker".to_owned()),
        cache_dir: Some("cache".to_owned()),
        persisted_cache_dir: Some("persisted".to_owned()),
        enable_discovery: false,
        enable_volume_normalisation: false,
        bitrate: Bitrate::B160,
        format: AudioFormat::S16,
        initial_volume: 32_768,
        username: None,
        password: None,
        access_token: access_token.map(str::to_owned),
        playback_credentials,
    }
}

fn stored() -> Credentials {
    Credentials {
        username: Some("spotify-user".to_owned()),
        auth_type: AuthenticationType::StoredSpotifyCredentials,
        auth_data: vec![1, 2, 3, 4],
    }
}

#[test]
fn stored_playback_credentials_take_precedence_over_bootstrap_token() {
    let config = config_with_authorization(Some("temporary-keymaster-token"), Some(Ok(stored())));
    let setup =
        parse_ffi_config(config, Some("speaker"), "speaker", true).expect("stored credential should be accepted");
    let credentials = setup.initial_creds.unwrap();
    assert_eq!(credentials.username.as_deref(), Some("spotify-user"));
    assert_eq!(credentials.auth_type, AuthenticationType::StoredSpotifyCredentials);
    assert_eq!(credentials.auth_data, vec![1, 2, 3, 4]);
}

#[test]
fn keymaster_token_is_only_used_as_a_bootstrap_credential() {
    let config = config_with_authorization(Some("temporary-keymaster-token"), None);
    let setup =
        parse_ffi_config(config, Some("speaker"), "speaker", true).expect("bootstrap token should be accepted");
    let credentials = setup.initial_creds.expect("bootstrap credentials missing");
    assert_eq!(credentials.auth_type, AuthenticationType::SpotifyToken);
    assert_eq!(credentials.auth_data, b"temporary-keymaster-token");
}

#[test]
fn non_stored_credentials_are_rejected_from_persistent_boundary() {
    let invalid = Credentials::with_access_token("web-api-token");
    let config = config_with_authorization(None, Some(Ok(invalid)));
    let error = match parse_ffi_config(config, Some("speaker"), "speaker", true) {
        Ok(_) => panic!("non-stored credentials crossed the persistent boundary"),
        Err(error) => error,
    };
    assert!(error.contains("wrong authentication type"));
}

#[test]
fn configurations_are_refused_for_a_reason() {
    let mut config = config_with_authorization(None, None);
    config.cache_dir = None;
    assert_eq!(
        parse_ffi_config(config, None::<()>, (), true).unwrap_err(),
        "Mandatory configuration strings (name, type, cache_dir, persisted_cache_dir) are NULL"
    );
    let config = config_with_authorization(None, Some(Err("expected value".to_owned())));
    assert_eq!(
        parse_ffi_config(config, None::<()>, (), true).unwrap_err(),
        "FFI: Invalid playback credentials: expected value"
    );
    let config = config_with_authorization(None, None);
    assert_eq!(
        parse_ffi_config(config, None::<()>, (), false).unwrap_err(),
        "FFI: No audio backend found"
    );
    let mut nameless = stored();
    nameless.username = Some(String::new());
    let config = config_with_authorization(None, Some(Ok(nameless)));
    assert!(parse_ffi_config(config, None::<()>, (), true).is_err());
}

#[test]
fn the_device_is_known_by_the_digest_of_its_name() {
    let mut config = config_with_authorization(None, None);
    config.username = Some("user".to_owned());
    config.password = Some("pass".to_owned());
    let setup = parse_ffi_config(config, None, "Speaker", true).unwrap();
    assert_eq!(setup.device_id, "74da12d7fcb0b7d43a45dc295e14fc6aa52aa00a");
    assert_eq!(setup.device_type, "Speaker");
    assert_eq!((setup.cache_dir.as_str(), setup.zeroconf_port), ("cache", 0));
    assert_eq!(setup.volume_range_db, 60);
    let credentials = setup.initial_creds.unwrap();
    assert_eq!(credentials.auth_type, AuthenticationType::UserPass);
    assert_eq!(credentials.username.as_deref(), Some("user"));
    assert_eq!(credentials.auth_data, b"pass");
}
