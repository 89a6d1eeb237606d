use librespot_uwp::app_data::{
    content_type, falls_back_to_profile, followed_artist_uris, followed_artist_uris_from_bytes,
    get_app_data, json_payload_from_bytes, json_payload_from_context, parse_file_id,
    parse_track_id, playlist_list_uris, playlist_list_uris_from_bytes, preview, preview_text,
    resolve_username, rootlist_argument, search_uris, user_profile_from_bytes, AppDataError, AppDataKind,
    AppDataPayload, FetchRequest, ParsedUri, RootlistArgument, TrackIdError,
};
use librespot_uwp::cache_path::CachePath;
use librespot_uwp::path_reading::PathStyle;
use librespot_uwp::errors::ErrorKind;
use librespot_uwp::ffi_records::{
    build_ffi_playlist, build_ffi_search, build_ffi_user_profile, ffi_string,
};
use librespot_uwp::ids::{FileId, SpotifyId};
use librespot_uwp::json::{
    collect_json_spotify_uris, collect_json_spotify_uris_in_order, find_first_image_url,
    json_string, read_document, JsonValue,
};
use librespot_uwp::lyrics::{
    cached_lyrics, LyricsColorsPayload, LyricsDirectories, LyricsPayload, LyricsRead,
};
use librespot_uwp::offline::{OfflineIndex, OfflineTrackIndexEntry};
use librespot_uwp::order::{insert_ascending, text_before};
use librespot_uwp::payloads::{
    album_payload, artist_payload, artist_summary, binary_payload, fetched, format_date,
    image_url_for, map_album_summary_payload, map_episode_payload, map_show_payload,
    playlist_payload, playlist_summary, playlist_track_uris, user_profile, Album, Artist,
    ArtistSummaryPayload, AudioFileInfo, Availability, Date, Episode, Image, Playlist,
    PlaylistItem, PlaylistListPayload, SearchPayload, Show, Track,
};
use librespot_uwp::text::{parse_unsigned, replace, split, to_decimal, trim};
use librespot_uwp::uris::{
    collect_context_uris, distinct_texts, extract_spotify_uris, extract_spotify_uris_from_bytes,
    page_url_to_uri, Context, ContextPage,
};

fn text(value: &str) -> JsonValue {
    JsonValue::Text(value.to_owned())
}

fn object(fields: Vec<(&str, JsonValue)>) -> JsonValue {
    JsonValue::Object(fields.into_iter().map(|(name, value)| (name.to_owned(), value)).collect())
}

#[test]
fn texts_are_trimmed_split_and_replaced() {
    assert_eq!(trim("\u{a0}\t a b \u{3000}\n"), "a b");
    assert_eq!(split("a//b/", '/'), vec!["a", "", "b", ""]);
    assert_eq!(replace("aaa", "aa", "b"), "ba");
    assert_eq!(to_decimal(u64::MAX), "18446744073709551615");
    assert_eq!(parse_unsigned("18446744073709551615", u64::MAX), Some(u64::MAX));
    assert_eq!(parse_unsigned("18446744073709551616", u64::MAX), None);
    assert!(text_before("ab", "abc") && !text_before("b", "abc") && text_before("z", "\u{e9}"));
    let mut list = Vec::new();
    for entry in ["b", "a", "b", "c", "a"] {
        insert_ascending(&mut list, entry.to_owned());
    }
    assert_eq!(list, vec!["a", "b", "c"]);
}

#[test]
fn fields_give_their_text() {
    let profile = object(vec![
        ("a", JsonValue::Number("1".to_owned())),
        ("name", object(vec![("value", text("inner"))])),
        ("display_name", text("outer")),
    ]);
    assert_eq!(json_string(&profile, &["name", "display_name"]).as_deref(), Some("inner"));
    assert_eq!(json_string(&profile, &["a", "display_name"]).as_deref(), Some("outer"));
    assert_eq!(json_string(&profile, &["a", "b"]), None);
    assert_eq!(json_string(&JsonValue::Null, &["a"]), None);
}

#[test]
fn the_first_picture_is_found() {
    let nested = object(vec![
        ("z", JsonValue::List(vec![object(vec![("images", JsonValue::List(vec![object(vec![(
            "url",
            text("deep"),
        )])]))])])),
        ("images", JsonValue::List(vec![JsonValue::Null, object(vec![("url", text("near"))])])),
    ]);
    assert_eq!(find_first_image_url(&nested).as_deref(), Some("near"));
    let deep = object(vec![
        ("images", JsonValue::List(vec![])),
        ("b", object(vec![("images", JsonValue::List(vec![object(vec![("url", text("x"))])]))])),
    ]);
    assert_eq!(find_first_image_url(&deep).as_deref(), Some("x"));
    assert_eq!(find_first_image_url(&JsonValue::Bool(true)), None);
}

#[test]
fn addresses_are_collected_in_order() {
    let value = JsonValue::List(vec![
        text("spotify:artist:b"),
        object(vec![("x", text("spotify:artist:a")), ("y", text("spotify:album:c"))]),
        text("spotify:artist:b"),
    ]);
    let mut all = Vec::new();
    collect_json_spotify_uris(&value, "spotify:artist:", &mut all);
    assert_eq!(all, vec!["spotify:artist:b", "spotify:artist:a", "spotify:artist:b"]);
    assert_eq!(distinct_texts(&all), vec!["spotify:artist:b", "spotify:artist:a"]);
    assert_eq!(
        collect_json_spotify_uris_in_order(&value, "spotify:artist:"),
        vec!["spotify:artist:b", "spotify:artist:a"]
    );
    let artists = followed_artist_uris(Some(value), b"").unwrap();
    assert_eq!(artists, vec!["spotify:artist:a", "spotify:artist:b"]);
    let error = followed_artist_uris(Some(JsonValue::Null), b"").unwrap_err();
    assert_eq!(error.message, "no artist uris found in followed artists payload");
    assert_eq!(error.kind, ErrorKind::FailedPrecondition);
}

#[test]
fn addresses_are_picked_out_of_bytes() {
    let bytes = b"\xff\x00spotify:playlist:a1_B\x01spotify:playlist:a1_B?spotify:playlist:spotify:playlist:z";
    assert_eq!(
        extract_spotify_uris_from_bytes(bytes, "spotify:playlist:"),
        vec![
            "spotify:playlist:a1_B",
            "spotify:playlist:spotify:playlist:z",
            "spotify:playlist:z"
        ]
    );
    assert_eq!(
        playlist_list_uris(None, None, bytes, 1).unwrap(),
        vec!["spotify:playlist:a1_B"]
    );
    let entries = ["spotify:playlist:x", "spotify:folder:y", "spotify:playlist:x"];
    let entries = entries.iter().map(|uri| uri.to_string()).collect();
    assert_eq!(
        playlist_list_uris(Some(entries), None, bytes, 9).unwrap(),
        vec!["spotify:playlist:x"]
    );
    let document = Some(text("spotify:playlist:json"));
    assert_eq!(
        playlist_list_uris(None, document, bytes, 9).unwrap(),
        vec!["spotify:playlist:json"]
    );
    let error = playlist_list_uris(Some(vec![]), None, bytes, 9).unwrap_err();
    assert_eq!(error.message, "no playlist uris found in playlist list payload");
}

#[test]
fn documents_are_read_from_bytes() {
    let document = read_document(br#"{"b": [null, true, -1.5e3], "a": {"c": "t\u00e9xt"}}"#);
    let JsonValue::Object(fields) = document.unwrap() else { panic!("an object") };
    let names: Vec<&str> = fields.iter().map(|(name, _)| name.as_str()).collect();
    assert_eq!(names, vec!["a", "b"]);
    assert_eq!(fields[0].1.get("c").unwrap().as_str().unwrap(), "t\u{e9}xt");
    let JsonValue::List(items) = &fields[1].1 else { panic!("a list") };
    assert!(matches!(items[0], JsonValue::Null) && matches!(items[1], JsonValue::Bool(true)));
    assert!(matches!(&items[2], JsonValue::Number(digits) if digits == "-1500.0"));
    let message = read_document(b"{").unwrap_err();
    assert_eq!(message, "EOF while parsing an object at line 1 column 1");
}

#[test]
fn answers_are_searched_for_addresses() {
    let bytes = br#"{"z": ["spotify:playlist:2", "spotify:playlist:1"], "a": "spotify:playlist:2x"}"#;
    assert_eq!(
        playlist_list_uris_from_bytes(None, bytes, 2).unwrap(),
        vec!["spotify:playlist:2x", "spotify:playlist:2"]
    );
    assert!(playlist_list_uris_from_bytes(Some(vec![]), bytes, 2).is_err());
    assert_eq!(
        playlist_list_uris_from_bytes(None, b"not spotify:playlist:json", 2).unwrap(),
        vec!["spotify:playlist:json"]
    );
    let bytes = br#"["spotify:artist:b", {"x": "spotify:artist:a"}, "spotify:artist:b"]"#;
    assert_eq!(
        followed_artist_uris_from_bytes(bytes).unwrap(),
        vec!["spotify:artist:a", "spotify:artist:b"]
    );
    assert_eq!(
        followed_artist_uris_from_bytes(b"spotify:artist:b spotify:artist:a").unwrap(),
        vec!["spotify:artist:b", "spotify:artist:a"]
    );
    let error = followed_artist_uris_from_bytes(b"null").unwrap_err();
    assert_eq!(error.kind, ErrorKind::FailedPrecondition);
    assert_eq!(
        extract_spotify_uris("a spotify:album:x-y", "spotify:album:"),
        vec!["spotify:album:x"]
    );
}

#[test]
fn documents_are_handed_on() {
    let payload = json_payload_from_bytes(b" [1] ").unwrap();
    assert_eq!(payload.value.to_string(), "[1]");
    let error = json_payload_from_bytes(b"]").unwrap_err();
    assert_eq!(error.kind, ErrorKind::FailedPrecondition);
    assert_eq!(error.message, "expected value at line 1 column 1");
    let payload = json_payload_from_context(Ok("\"x\"".to_owned())).unwrap();
    assert_eq!(payload.value.as_str(), Some("x"));
    let error = json_payload_from_context(Err("not written".to_owned())).unwrap_err();
    assert_eq!(error.message, "not written");
    assert_eq!(error.kind, ErrorKind::FailedPrecondition);
}

#[test]
fn unreadable_answers_are_shown_in_part() {
    assert_eq!(preview(b"a\r\nb\\\xffc"), "a\\r\\nb\\\u{fffd}c");
    assert_eq!(preview(b""), "");
    let long = "\n".repeat(239) + "\u{e4}\u{f6}\u{fc}";
    assert_eq!(preview_text(&long), "\\n".repeat(239) + "\u{e4}");
    assert_eq!(preview(&[b'x'; 241]), "x".repeat(240));
}

#[test]
fn pages_stand_for_addresses() {
    assert_eq!(page_url_to_uri("hm://x/spotify/track/abc/more"), "spotify:track:abc");
    assert_eq!(page_url_to_uri("spotify/album"), "spotify:album");
    assert_eq!(page_url_to_uri("nothing/here"), "");
    let context = Context {
        uri: Some("spotify:track:m".to_owned()),
        pages: vec![
            ContextPage {
                page_url: Some("hm://a/spotify/track/z".to_owned()),
                tracks: vec![Some("spotify:track:b".to_owned()), None],
            },
            ContextPage {
                page_url: None,
                tracks: vec![
                    Some("spotify:track:b".to_owned()),
                    Some("spotify:album:q".to_owned()),
                ],
            },
        ],
    };
    assert_eq!(
        collect_context_uris(&context, "track"),
        vec!["spotify:track:b", "spotify:track:m", "spotify:track:z"]
    );
    let found = search_uris(&context);
    assert_eq!(found.albums, vec!["spotify:album:q"]);
    assert!(found.artists.is_empty() && found.playlists.is_empty());
}

const HEX: &str = "0102030405060708090a0b0c0d0e0f1011121314";

#[test]
fn questions_lead_to_requests() {
    let ask = |kind, argument| get_app_data(kind, argument, "me");
    assert!(matches!(
        ask(1, "spotify:track:x"),
        Ok((AppDataKind::Track, FetchRequest::Metadata(uri))) if uri == "spotify:track:x"
    ));
    assert!(matches!(
        ask(5, "current"),
        Ok((_, FetchRequest::UserProfile { username, playlists: Some(20), artists: Some(20) }))
            if username == "me"
    ));
    assert!(matches!(
        ask(6, "you"),
        Ok((_, FetchRequest::UserRootlist { username, length: 200 })) if username == "you"
    ));
    assert!(matches!(
        ask(7, ""),
        Ok((_, FetchRequest::ContextOf(uri))) if uri == "spotify:user:me:collection"
    ));
    assert!(matches!(
        ask(8, "a b c"),
        Ok((_, FetchRequest::ContextOf(uri))) if uri == "spotify:search:a+b+c"
    ));
    assert!(matches!(ask(22, HEX), Ok((_, FetchRequest::HeadFile(_)))));
    assert!(matches!(ask(26, " 12 "), Ok((_, FetchRequest::RootlistFrom(12)))));
    assert!(matches!(ask(26, " {"), Ok((_, FetchRequest::Document(_)))));
    for kind in 1..27 {
        assert!(get_app_data(kind, HEX, "me").is_ok());
    }
    let unknown = ask(27, "").unwrap_err();
    assert_eq!(unknown.message, "unknown app data request kind");
    assert_eq!(unknown.kind, ErrorKind::InvalidArgument);
    let nobody = get_app_data(9, "current", "").unwrap_err();
    assert_eq!(nobody.message, "no username available for current-user librespot request");
    let no_file = ask(20, "zz").unwrap_err();
    assert_eq!(no_file.kind, ErrorKind::InvalidArgument);
    assert!(no_file.message.contains("Invalid character"));
    assert_eq!(content_type(AppDataKind::ImageBinary), "image/jpeg");
    assert_eq!(content_type(AppDataKind::AudioPreviewBinary), "audio/mpeg");
    assert_eq!(content_type(AppDataKind::HeadFileBinary), "application/octet-stream");
}

#[test]
fn arguments_are_read() {
    assert_eq!(resolve_username("you", "me").unwrap(), "you");
    assert_eq!(resolve_username("", "me").unwrap(), "me");
    assert_eq!(rootlist_argument("x"), RootlistArgument::From(0));
    assert_eq!(rootlist_argument(" 7"), RootlistArgument::From(7));
    assert_eq!(rootlist_argument("\n{}"), RootlistArgument::Document);
    assert_eq!(parse_file_id(HEX).unwrap().0[19], 0x14);
    let id = SpotifyId([1; 16]);
    assert!(matches!(parse_track_id::<()>(ParsedUri::Track(id)), Ok(found) if found == id));
    assert!(matches!(
        parse_track_id::<()>(ParsedUri::Other),
        Err(TrackIdError::NotATrack(error)) if error.message == "track_uri"
    ));
    assert!(matches!(
        parse_track_id(ParsedUri::Invalid("bad")),
        Err(TrackIdError::Invalid("bad"))
    ));
    assert!(falls_back_to_profile(&Ok(PlaylistListPayload { items: vec![] })));
    assert!(falls_back_to_profile(&Err(AppDataError::new(ErrorKind::Unknown, "x"))));
}

fn album(name: &str) -> Album {
    Album {
        id: "id".to_owned(),
        uri: "uri".to_owned(),
        name: name.to_owned(),
        album_type: "SINGLE".to_owned(),
        covers: vec![Image {
            id: FileId([0xab; 20]),
            size: "LARGE".to_owned(),
            width: 640,
            height: 480,
        }],
        artists: vec![ArtistSummaryPayload {
            id: "ai".to_owned(),
            uri: "au".to_owned(),
            name: "an".to_owned(),
        }],
        date: Date { year: 1999, month: 3, day: 7 },
    }
}

fn track(name: &str) -> Track {
    Track {
        id: "ti".to_owned(),
        uri: "tu".to_owned(),
        name: name.to_owned(),
        duration: 1,
        disc_number: 2,
        number: 3,
        artists: vec![],
        album: album("of"),
    }
}

#[test]
fn dates_are_padded() {
    assert_eq!(format_date(Date { year: 2024, month: 11, day: 5 }), "2024-11-05");
    assert_eq!(format_date(Date { year: 7, month: 1, day: 1 }), "0007-01-01");
    assert_eq!(format_date(Date { year: -5, month: 1, day: 1 }), "-005-01-01");
    assert_eq!(format_date(Date { year: 12345, month: 1, day: 1 }), "12345-01-01");
}

#[test]
fn albums_list_what_could_be_fetched() {
    let template = Some("https://i/{file_id}/{file_id}");
    let hex = "ab".repeat(20);
    assert_eq!(image_url_for(template, FileId([0xab; 20])), Some(format!("https://i/{hex}/{hex}")));
    assert_eq!(image_url_for(None, FileId([0xab; 20])), None);
    let payload = album_payload(template, album("A"), vec![Some(track("x")), None, Some(track("y"))]);
    assert_eq!(payload.album_type, "single");
    assert_eq!(payload.release_date, "1999-03-07");
    assert_eq!(payload.total_tracks, 2);
    assert_eq!((payload.tracks[0].name.as_str(), payload.tracks[1].track_number), ("x", 3));
    assert_eq!((payload.images[0].width, payload.images[0].height), (640, 480));
    assert!(map_album_summary_payload(None, album("A")).images.is_empty());
    let artist = Artist {
        id: "i".to_owned(),
        uri: "u".to_owned(),
        name: "n".to_owned(),
        portraits: vec![],
    };
    let artist = artist_payload(template, artist, vec![None, Some(album("B"))]);
    assert_eq!(artist.albums[0].name, "B");
    assert_eq!(artist_summary(artist).name, "n");
    assert_eq!(fetched(vec![Some(1), None, Some(2)]), vec![1, 2]);
}

fn playlist() -> Playlist {
    Playlist {
        id: "i".to_owned(),
        uri: "u".to_owned(),
        name: "n\0m".to_owned(),
        picture_urls: vec!["p".to_owned()],
        user: Some("owner".to_owned()),
        items: vec![
            PlaylistItem { uri: "a".to_owned(), is_track: true },
            PlaylistItem { uri: "b".to_owned(), is_track: false },
        ],
    }
}

#[test]
fn playlists_name_their_owner() {
    assert_eq!(playlist_track_uris(&playlist().items), vec!["a"]);
    let payload = playlist_payload(None, playlist(), vec![Some(track("x"))]);
    assert_eq!((payload.owner.id.as_str(), payload.owner.display_name.as_str()), ("owner", "owner"));
    assert_eq!(payload.images[0].url, "p");
    let record = build_ffi_playlist(payload);
    assert_eq!(record.name, "n\\0m");
    assert_eq!(record.tracks[0].album.name, "of");
    assert_eq!(record.tracks[0].album.release_date, "");
    let mut bare = playlist();
    bare.picture_urls[0].clear();
    bare.user = None;
    assert!(playlist_summary(bare).images.is_empty());
}

#[test]
fn users_have_a_name_and_a_picture() {
    let profile = object(vec![("name", text("Shown"))]);
    let payload = user_profile("login".to_owned(), "SE".to_owned(), &profile);
    assert_eq!((payload.uri.as_str(), payload.display_name.as_str()), ("spotify:user:login", "Shown"));
    assert!(payload.images.is_empty());
    let payload = user_profile("login".to_owned(), "SE".to_owned(), &JsonValue::Null);
    let record = build_ffi_user_profile(payload);
    assert_eq!((record.display_name.as_str(), record.country.as_str()), ("login", "SE"));
    let bytes = br#"{"display_name": {"value": "Read"}, "x": {"images": [{"url": "u"}]}}"#;
    let payload = user_profile_from_bytes("login".to_owned(), "SE".to_owned(), bytes).unwrap();
    assert_eq!((payload.display_name.as_str(), payload.images[0].url.as_str()), ("Read", "u"));
    let error = user_profile_from_bytes("login".to_owned(), "SE".to_owned(), b"").unwrap_err();
    assert_eq!(error.kind, ErrorKind::FailedPrecondition);
    assert_eq!(error.message, "EOF while parsing a value at line 1 column 0");
}

#[test]
fn texts_for_c_hold_no_nul() {
    assert_eq!(ffi_string("a\0\0b"), "a\\0\\0b");
    assert_eq!(ffi_string("plain"), "plain");
    let search = SearchPayload { tracks: vec![], albums: vec![], artists: vec![], playlists: vec![] };
    assert!(build_ffi_search(search).tracks.is_empty());
}

#[test]
fn files_are_handed_on_as_text() {
    let payload = binary_payload("f", "image/jpeg", b"hello");
    assert_eq!((payload.base64.as_str(), payload.byte_length), ("aGVsbG8=", 5));
    assert_eq!(binary_payload("f", "image/jpeg", b"").base64, "");
    assert_eq!(binary_payload("f", "image/jpeg", b"h").base64, "aA==");
    assert_eq!(binary_payload("f", "image/jpeg", &[0xfb, 0xef, 0xff]).base64, "++//");
    assert_eq!(binary_payload("f", "image/jpeg", &[0x00, 0x10, 0x83]).base64, "ABCD");
    let answer: AppDataPayload<()> = AppDataPayload::ImageBinary(payload);
    assert_eq!(answer.kind(), AppDataKind::ImageBinary);
}

#[test]
fn episodes_and_shows_are_copied() {
    let date = Date { year: 2020, month: 2, day: 3 };
    let episode = Episode {
        id: "i".to_owned(),
        uri: "u".to_owned(),
        name: "n".to_owned(),
        description: String::new(),
        duration: 9,
        number: 1,
        publish_time: date,
        language: String::new(),
        is_explicit: false,
        show_name: String::new(),
        covers: album("x").covers,
        freeze_frames: vec![],
        audio: vec![AudioFileInfo {
            format: "MP3".to_owned(),
            id: FileId([1; 20]),
            mime_type: Some("audio/mpeg".to_owned()),
        }],
        audio_previews: vec![],
        videos: vec![FileId([2; 20])],
        video_previews: vec![],
        restrictions: vec![],
        availability: vec![Availability { catalogue_strs: vec![], start: date }],
        keywords: vec![],
        allow_background_playback: true,
        external_url: String::new(),
        episode_type: String::new(),
        has_music_and_talk: false,
        content_ratings: vec![],
        is_audiobook_chapter: false,
    };
    let payload = map_episode_payload(episode);
    assert_eq!((payload.publish_time.as_str(), payload.duration_ms), ("2020-02-03", 9));
    assert_eq!(payload.covers[0].file_id_hex, "ab".repeat(20));
    assert_eq!(payload.audio_files[0].file_id_hex, "01".repeat(20));
    assert_eq!(payload.video_files, vec!["02".repeat(20)]);
    assert_eq!(payload.availability[0].start, "2020-02-03");
    let show = Show {
        id: "i".to_owned(),
        uri: "u".to_owned(),
        name: "show".to_owned(),
        description: String::new(),
        publisher: String::new(),
        language: String::new(),
        is_explicit: true,
        covers: vec![],
        episode_uris: vec!["e".to_owned()],
        copyrights: vec![],
        restrictions: vec![],
        keywords: vec![],
        media_type: String::new(),
        consumption_order: String::new(),
        availability: vec![],
        trailer_uri: None,
        has_music_and_talk: false,
        is_audiobook: true,
    };
    let payload = map_show_payload(show);
    assert_eq!((payload.name.as_str(), payload.episode_uris.len()), ("show", 1));
    assert!(payload.is_explicit && payload.is_audiobook);
}

fn path(name: &str) -> CachePath {
    CachePath::read(name.to_owned(), None, PathStyle::Unix)
}

fn lyrics(provider: &str) -> LyricsPayload {
    LyricsPayload {
        provider: provider.to_owned(),
        provider_display_name: String::new(),
        language: String::new(),
        sync_type: String::new(),
        has_vocal_removal: false,
        is_dense_typeface: false,
        is_rtl_language: false,
        sync_lyrics_uri: String::new(),
        lines: vec![],
        colors: LyricsColorsPayload { background: 0, text: 0, highlight_text: 0 },
    }
}

#[test]
fn lyrics_are_found_where_they_were_written() {
    let directories = LyricsDirectories::new(&path("cache"), &path("kept"));
    let name = "b9922fcc5454ed7b282f9473a01a0ae5bcefec2b.lyrics.json";
    let uri = "spotify:track:abc";
    let volatile = format!("cache/lyrics/{name}");
    let kept = format!("kept/lyrics/{name}");
    let mut index = OfflineIndex::new();
    let (first, second) = directories.lookup_paths(&index, uri);
    assert_eq!((first.text, second.text), (volatile.clone(), kept.clone()));
    index.insert(OfflineTrackIndexEntry {
        track_uri: uri.to_owned(),
        file_id_hex: String::new(),
        format: 0,
        name: String::new(),
        artist: String::new(),
        album: String::new(),
        cover_url: String::new(),
        duration_ms: 0,
        is_explicit: false,
    });
    let (target, alternate) = directories.write_paths(&index, uri);
    assert_eq!((target.text, alternate.text), (kept.clone(), volatile.clone()));
    // The track is given up between writing and reading.
    index.remove(uri);
    let (first, second) = directories.lookup_paths(&index, uri);
    assert_eq!((first.text, second.text), (volatile.clone(), kept.clone()));
    let (source, target) = directories.move_paths(uri, true);
    assert_eq!((source.text, target.text), (volatile, kept));
    type Read = LyricsRead<&'static str>;
    assert!(matches!(
        cached_lyrics(Read::Missing, Read::Found(lyrics("second"))),
        Ok(Some(found)) if found.provider == "second"
    ));
    assert!(matches!(
        cached_lyrics(Read::Failed("unreadable"), Read::Found(lyrics("second"))),
        Err("unreadable")
    ));
    assert!(matches!(cached_lyrics(Read::Missing, Read::Missing), Ok(None)));
}
