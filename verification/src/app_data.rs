//! The questions that a frontend asks about the catalogue: which there are, and
//! what is to be fetched to answer them.
use crate::encoding;
use crate::errors::ErrorKind;
use crate::ids::{FileId, SpotifyId};
use crate::json::{
    self, collect_json_spotify_uris, collect_json_spotify_uris_in_order, JsonValue,
};
use crate::lyrics::LyricsPayload;
use crate::order;
use crate::payloads::{
    self, user_profile, AlbumPayload, ArtistListPayload, ArtistPayload, BinaryPayload,
    EpisodePayload, PlaylistAnnotationPayload, PlaylistListPayload, PlaylistPayload, SearchPayload,
    ShowPayload, TrackListPayload, TrackPayload, UserProfilePayload,
};
use crate::text;
use crate::uris::{self, collect_context_uris, distinct_with_prefix, Context};
use vstd::prelude::*;
use vstd::utf8::*;

verus! {

/// How many of the things that a search finds are answered, of each kind.
pub const SEARCH_LIMIT: usize = 20;

/// How many of the artists that a user follows are answered.
pub const FOLLOWED_LIMIT: usize = 50;

/// How many of the playlists of a user are answered.
pub const PLAYLIST_LIMIT: usize = 200;

/// What a frontend can ask.
#[derive(Debug, Clone, Copy, PartialEq, Eq, Structural)]
pub enum AppDataKind {
    Track,
    Album,
    Artist,
    Playlist,
    UserProfile,
    UserPlaylists,
    SavedTracks,
    Search,
    FollowedArtists,
    Lyrics,
    LyricsForImage,
    Episode,
    Show,
    PlaylistAnnotation,
    UserFollowersJson,
    UserFollowingJson,
    RadioForTrackJson,
    ApolloStationJson,
    NextPageJson,
    AudioStorageJson,
    AudioPreviewBinary,
    HeadFileBinary,
    ImageBinary,
    ContextJson,
    AutoplayContextJson,
    RootlistJson,
}

/// A document that is handed on as it is. `V` is the type of documents.
#[derive(Debug)]
pub struct JsonPayload<V> {
    pub value: V,
}

/// What a frontend is answered.
#[derive(Debug)]
pub enum AppDataPayload<V> {
    Track(TrackPayload),
    Album(AlbumPayload),
    Artist(ArtistPayload),
    Playlist(PlaylistPayload),
    UserProfile(UserProfilePayload),
    UserPlaylists(PlaylistListPayload),
    SavedTracks(TrackListPayload),
    Search(SearchPayload),
    FollowedArtists(ArtistListPayload),
    Lyrics(LyricsPayload),
    LyricsForImage(LyricsPayload),
    Episode(EpisodePayload),
    Show(ShowPayload),
    PlaylistAnnotation(PlaylistAnnotationPayload),
    UserFollowersJson(JsonPayload<V>),
    UserFollowingJson(JsonPayload<V>),
    RadioForTrackJson(JsonPayload<V>),
    ApolloStationJson(JsonPayload<V>),
    NextPageJson(JsonPayload<V>),
    AudioStorageJson(JsonPayload<V>),
    AudioPreviewBinary(BinaryPayload),
    HeadFileBinary(BinaryPayload),
    ImageBinary(BinaryPayload),
    ContextJson(JsonPayload<V>),
    AutoplayContextJson(JsonPayload<V>),
    RootlistJson(JsonPayload<V>),
}

impl<V> AppDataPayload<V> {
    /// The question that this answers.
    pub open spec fn question(self) -> AppDataKind {
        match self {
            AppDataPayload::Track(_) => AppDataKind::Track,
            AppDataPayload::Album(_) => AppDataKind::Album,
            AppDataPayload::Artist(_) => AppDataKind::Artist,
            AppDataPayload::Playlist(_) => AppDataKind::Playlist,
            AppDataPayload::UserProfile(_) => AppDataKind::UserProfile,
            AppDataPayload::UserPlaylists(_) => AppDataKind::UserPlaylists,
            AppDataPayload::SavedTracks(_) => AppDataKind::SavedTracks,
            AppDataPayload::Search(_) => AppDataKind::Search,
            AppDataPayload::FollowedArtists(_) => AppDataKind::FollowedArtists,
            AppDataPayload::Lyrics(_) => AppDataKind::Lyrics,
            AppDataPayload::LyricsForImage(_) => AppDataKind::LyricsForImage,
            AppDataPayload::Episode(_) => AppDataKind::Episode,
            AppDataPayload::Show(_) => AppDataKind::Show,
            AppDataPayload::PlaylistAnnotation(_) => AppDataKind::PlaylistAnnotation,
            AppDataPayload::UserFollowersJson(_) => AppDataKind::UserFollowersJson,
            AppDataPayload::UserFollowingJson(_) => AppDataKind::UserFollowingJson,
            AppDataPayload::RadioForTrackJson(_) => AppDataKind::RadioForTrackJson,
            AppDataPayload::ApolloStationJson(_) => AppDataKind::ApolloStationJson,
            AppDataPayload::NextPageJson(_) => AppDataKind::NextPageJson,
            AppDataPayload::AudioStorageJson(_) => AppDataKind::AudioStorageJson,
            AppDataPayload::AudioPreviewBinary(_) => AppDataKind::AudioPreviewBinary,
            AppDataPayload::HeadFileBinary(_) => AppDataKind::HeadFileBinary,
            AppDataPayload::ImageBinary(_) => AppDataKind::ImageBinary,
            AppDataPayload::ContextJson(_) => AppDataKind::ContextJson,
            AppDataPayload::AutoplayContextJson(_) => AppDataKind::AutoplayContextJson,
            AppDataPayload::RootlistJson(_) => AppDataKind::RootlistJson,
        }
    }

    /// The question that this answers.
    pub fn kind(&self) -> (kind: AppDataKind)
        ensures
            kind == self.question(),
    {
        match self {
            AppDataPayload::Track(_) => AppDataKind::Track,
            AppDataPayload::Album(_) => AppDataKind::Album,
            AppDataPayload::Artist(_) => AppDataKind::Artist,
            AppDataPayload::Playlist(_) => AppDataKind::Playlist,
            AppDataPayload::UserProfile(_) => AppDataKind::UserProfile,
            AppDataPayload::UserPlaylists(_) => AppDataKind::UserPlaylists,
            AppDataPayload::SavedTracks(_) => AppDataKind::SavedTracks,
            AppDataPayload::Search(_) => AppDataKind::Search,
            AppDataPayload::FollowedArtists(_) => AppDataKind::FollowedArtists,
            AppDataPayload::Lyrics(_) => AppDataKind::Lyrics,
            AppDataPayload::LyricsForImage(_) => AppDataKind::LyricsForImage,
            AppDataPayload::Episode(_) => AppDataKind::Episode,
            AppDataPayload::Show(_) => AppDataKind::Show,
            AppDataPayload::PlaylistAnnotation(_) => AppDataKind::PlaylistAnnotation,
            AppDataPayload::UserFollowersJson(_) => AppDataKind::UserFollowersJson,
            AppDataPayload::UserFollowingJson(_) => AppDataKind::UserFollowingJson,
            AppDataPayload::RadioForTrackJson(_) => AppDataKind::RadioForTrackJson,
            AppDataPayload::ApolloStationJson(_) => AppDataKind::ApolloStationJson,
            AppDataPayload::NextPageJson(_) => AppDataKind::NextPageJson,
            AppDataPayload::AudioStorageJson(_) => AppDataKind::AudioStorageJson,
            AppDataPayload::AudioPreviewBinary(_) => AppDataKind::AudioPreviewBinary,
            AppDataPayload::HeadFileBinary(_) => AppDataKind::HeadFileBinary,
            AppDataPayload::ImageBinary(_) => AppDataKind::ImageBinary,
            AppDataPayload::ContextJson(_) => AppDataKind::ContextJson,
            AppDataPayload::AutoplayContextJson(_) => AppDataKind::AutoplayContextJson,
            AppDataPayload::RootlistJson(_) => AppDataKind::RootlistJson,
        }
    }
}

/// Why a question cannot be answered.
#[derive(Debug)]
pub struct AppDataError {
    pub kind: ErrorKind,
    pub message: String,
}

impl AppDataError {
    /// Whether this is the error of the given kind and with the given message.
    pub open spec fn is(self, kind: ErrorKind, message: Seq<char>) -> bool {
        self.kind == kind && self.message@ == message
    }

    /// The error of the given kind and with the given message.
    pub fn new(kind: ErrorKind, message: &str) -> (error: AppDataError)
        ensures
            error.is(kind, message@),
    {
        AppDataError { kind, message: message.to_owned() }
    }
}

impl AppDataKind {
    /// The number that stands for the question.
    pub open spec fn raw(self) -> i32 {
        match self {
            AppDataKind::Track => 1,
            AppDataKind::Album => 2,
            AppDataKind::Artist => 3,
            AppDataKind::Playlist => 4,
            AppDataKind::UserProfile => 5,
            AppDataKind::UserPlaylists => 6,
            AppDataKind::SavedTracks => 7,
            AppDataKind::Search => 8,
            AppDataKind::FollowedArtists => 9,
            AppDataKind::Lyrics => 10,
            AppDataKind::LyricsForImage => 11,
            AppDataKind::Episode => 12,
            AppDataKind::Show => 13,
            AppDataKind::PlaylistAnnotation => 14,
            AppDataKind::UserFollowersJson => 15,
            AppDataKind::UserFollowingJson => 16,
            AppDataKind::RadioForTrackJson => 17,
            AppDataKind::ApolloStationJson => 18,
            AppDataKind::NextPageJson => 19,
            AppDataKind::AudioStorageJson => 20,
            AppDataKind::AudioPreviewBinary => 21,
            AppDataKind::HeadFileBinary => 22,
            AppDataKind::ImageBinary => 23,
            AppDataKind::ContextJson => 24,
            AppDataKind::AutoplayContextJson => 25,
            AppDataKind::RootlistJson => 26,
        }
    }

    /// The question that a number stands for.
    pub fn from_raw(kind: i32) -> (result: Result<AppDataKind, AppDataError>)
        ensures
            result is Ok <==> 1 <= kind <= 26,
            result matches Ok(question) ==> question.raw() == kind,
            result matches Err(error) ==> error.is(
                ErrorKind::InvalidArgument,
                "unknown app data request kind"@,
            ),
    {
        let question = match kind {
            1 => AppDataKind::Track,
            2 => AppDataKind::Album,
            3 => AppDataKind::Artist,
            4 => AppDataKind::Playlist,
            5 => AppDataKind::UserProfile,
            6 => AppDataKind::UserPlaylists,
            7 => AppDataKind::SavedTracks,
            8 => AppDataKind::Search,
            9 => AppDataKind::FollowedArtists,
            10 => AppDataKind::Lyrics,
            11 => AppDataKind::LyricsForImage,
            12 => AppDataKind::Episode,
            13 => AppDataKind::Show,
            14 => AppDataKind::PlaylistAnnotation,
            15 => AppDataKind::UserFollowersJson,
            16 => AppDataKind::UserFollowingJson,
            17 => AppDataKind::RadioForTrackJson,
            18 => AppDataKind::ApolloStationJson,
            19 => AppDataKind::NextPageJson,
            20 => AppDataKind::AudioStorageJson,
            21 => AppDataKind::AudioPreviewBinary,
            22 => AppDataKind::HeadFileBinary,
            23 => AppDataKind::ImageBinary,
            24 => AppDataKind::ContextJson,
            25 => AppDataKind::AutoplayContextJson,
            26 => AppDataKind::RootlistJson,
            _ => {
                return Err(
                    AppDataError::new(
                        ErrorKind::InvalidArgument,
                        "unknown app data request kind",
                    ),
                );
            },
        };
        Ok(question)
    }
}

/// The user that a question is about: the one that it names, or else the one
/// who is logged in.
pub fn resolve_username(argument: &str, session_username: &str) -> (result: Result<
    String,
    AppDataError,
>)
    ensures
        result is Ok <==> asked_user(argument@, session_username@).len() > 0,
        result matches Ok(name) ==> name@ == asked_user(argument@, session_username@),
        result matches Err(error) ==> error.is(
            ErrorKind::FailedPrecondition,
            "no username available for current-user librespot request"@,
        ),
{
    if !text::is_empty(argument) && !text::same_text(argument, "current") {
        return Ok(argument.to_owned());
    }
    if !text::is_empty(session_username) {
        return Ok(session_username.to_owned());
    }
    Err(
        AppDataError::new(
            ErrorKind::FailedPrecondition,
            "no username available for current-user librespot request",
        ),
    )
}

/// The address of what a search finds.
pub fn search_uri(query: &str) -> (uri: String)
    ensures
        uri@ == "spotify:search:"@ + text::replaced(query@, " "@, "+"@),
{
    proof {
        reveal_strlit(" ");
    }
    let words = text::replace(query, " ", "+");
    text::concat("spotify:search:", words.as_str())
}

/// The address of what a user has saved.
pub fn collection_uri(username: &str) -> (uri: String)
    ensures
        uri@ == "spotify:user:"@ + username@ + ":collection"@,
{
    text::concat3("spotify:user:", username, ":collection")
}

/// The first texts of a list, no more than `limit`.
pub open spec fn first_texts(list: Seq<Seq<char>>, limit: nat) -> Seq<Seq<char>> {
    if list.len() < limit {
        list
    } else {
        list.take(limit as int)
    }
}

/// The first addresses of a list.
fn first_of(list: Vec<String>, limit: usize) -> (first: Vec<String>)
    ensures
        text::texts(first@) == first_texts(text::texts(list@), limit as nat),
{
    let mut first = list;
    first.truncate(limit);
    assert(text::texts(first@) =~= first_texts(text::texts(list@), limit as nat));
    first
}

/// What a search is to fetch, of each kind in ascending order.
#[derive(Debug)]
pub struct SearchUris {
    pub tracks: Vec<String>,
    pub albums: Vec<String>,
    pub artists: Vec<String>,
    pub playlists: Vec<String>,
}

/// Whether a list holds the first addresses of a kind in a context: they are in
/// ascending order, as many as the limit allows, and none that is left out
/// comes before one that is not.
pub open spec fn are_first_uris(context: Context, kind: Seq<char>, limit: nat, list: Seq<
    Seq<char>,
>) -> bool {
    exists|all: Seq<Seq<char>>|
        {
            &&& #[trigger] order::ascending(all)
            &&& forall|uri: Seq<char>| #[trigger]
                all.to_set().contains(uri) <==> uris::context_uris(context).contains(uri)
                    && text::occurs_at(uri, uris::kind_prefix(kind), 0)
            &&& list == first_texts(all, limit)
        }
}

/// The first addresses of a kind in a context.
fn first_context_uris(context: &Context, kind: &str, limit: usize) -> (list: Vec<String>)
    ensures
        are_first_uris(*context, kind@, limit as nat, text::texts(list@)),
{
    let all = collect_context_uris(context, kind);
    assert(order::ascending(text::texts(all@)));
    first_of(all, limit)
}

/// What a search is to fetch.
pub fn search_uris(context: &Context) -> (found: SearchUris)
    ensures
        are_first_uris(*context, "track"@, 20, text::texts(found.tracks@)),
        are_first_uris(*context, "album"@, 20, text::texts(found.albums@)),
        are_first_uris(*context, "artist"@, 20, text::texts(found.artists@)),
        are_first_uris(*context, "playlist"@, 20, text::texts(found.playlists@)),
{
    SearchUris {
        tracks: first_context_uris(context, "track", SEARCH_LIMIT),
        albums: first_context_uris(context, "album", SEARCH_LIMIT),
        artists: first_context_uris(context, "artist", SEARCH_LIMIT),
        playlists: first_context_uris(context, "playlist", SEARCH_LIMIT),
    }
}

/// The addresses of playlists in an answer: the entries of the list that it is,
/// or else the texts of the document that it is, or else whatever in its bytes
/// looks like one.
pub open spec fn playlist_uris_in(
    entries: Option<Seq<Seq<char>>>,
    document: Option<json::Json>,
    bytes: Seq<u8>,
) -> Seq<Seq<char>> {
    match entries {
        Some(list) => uris::distinct(uris::with_prefix(list, "spotify:playlist:"@)),
        None => match document {
            Some(value) => uris::distinct(
                uris::with_prefix(json::texts_in(value), "spotify:playlist:"@),
            ),
            None => uris::distinct(
                uris::scanned(encoding::utf8_lossy(bytes), "spotify:playlist:"@),
            ),
        },
    }
}

/// Whether a result holds the first addresses of playlists in an answer, or says
/// that there are none.
pub open spec fn are_playlist_uris(
    entries: Option<Seq<Seq<char>>>,
    document: Option<json::Json>,
    bytes: Seq<u8>,
    limit: nat,
    result: Result<Vec<String>, AppDataError>,
) -> bool {
    let found = playlist_uris_in(entries, document, bytes);
    match result {
        Ok(list) => found.len() > 0 && text::texts(list@) == first_texts(found, limit),
        Err(error) => found.len() == 0 && error.is(
            ErrorKind::FailedPrecondition,
            "no playlist uris found in playlist list payload"@,
        ),
    }
}

/// The entries that an answer was read as.
pub open spec fn entry_texts(entries: Option<Vec<String>>) -> Option<Seq<Seq<char>>> {
    match entries {
        Some(list) => Some(text::texts(list@)),
        None => None,
    }
}

/// The playlists that are to be fetched for an answer, no more than `limit`.
/// `entries` and `document` are what the answer was read as, if it could be.
pub fn playlist_list_uris(
    entries: Option<Vec<String>>,
    document: Option<JsonValue>,
    bytes: &[u8],
    limit: usize,
) -> (result: Result<Vec<String>, AppDataError>)
    ensures
        are_playlist_uris(
            entry_texts(entries),
            json::optional_view(document),
            bytes@,
            limit as nat,
            result,
        ),
{
    let list = match &entries {
        Some(list) => distinct_with_prefix(list, "spotify:playlist:"),
        None => match &document {
            Some(value) => collect_json_spotify_uris_in_order(value, "spotify:playlist:"),
            None => {
                proof {
                    reveal_strlit("spotify:playlist:");
                }
                uris::extract_spotify_uris_from_bytes(bytes, "spotify:playlist:")
            },
        },
    };
    if list.len() == 0 {
        return Err(
            AppDataError::new(
                ErrorKind::FailedPrecondition,
                "no playlist uris found in playlist list payload",
            ),
        );
    }
    Ok(first_of(list, limit))
}

/// What bytes are read as, if they hold a document.
pub open spec fn document_in(bytes: Seq<u8>) -> Option<json::Json> {
    match json::json_read(bytes) {
        Ok(document) => Some(document),
        Err(_) => None,
    }
}

/// The document that bytes hold.
fn document(bytes: &[u8]) -> (result: Option<JsonValue>)
    ensures
        json::optional_view(result) == document_in(bytes@),
{
    match json::read_document(bytes) {
        Ok(value) => Some(value),
        Err(_) => None,
    }
}

/// The number of characters that an answer which cannot be read is shown with.
pub const PREVIEW_LEN: usize = 240;

/// How a text is shown in the log: its first characters, with the ends of lines
/// escaped.
pub open spec fn preview_of(content: Seq<char>) -> Seq<char> {
    let start = if content.len() > PREVIEW_LEN {
        content.take(PREVIEW_LEN as int)
    } else {
        content
    };
    text::replaced(text::replaced(start, "\r"@, "\\r"@), "\n"@, "\\n"@)
}

/// How a text is shown in the log.
pub fn preview_text(content: &str) -> (shown: String)
    ensures
        shown@ == preview_of(content@),
{
    let chars = text::to_chars(content);
    let len: usize = if chars.len() > PREVIEW_LEN {
        PREVIEW_LEN
    } else {
        chars.len()
    };
    let start = text::from_chars(&chars, 0, len);
    proof {
        reveal_strlit("\r");
        reveal_strlit("\n");
        assert(start@ =~= if content@.len() > PREVIEW_LEN {
            content@.take(PREVIEW_LEN as int)
        } else {
            content@
        });
    }
    let escaped = text::replace(start.as_str(), "\r", "\\r");
    text::replace(escaped.as_str(), "\n", "\\n")
}

/// How an answer that cannot be read is shown in the log.
pub fn preview(bytes: &[u8]) -> (shown: String)
    ensures
        shown@ == preview_of(encoding::utf8_lossy(bytes@)),
{
    preview_text(encoding::decode_lossy(bytes).as_str())
}

/// The playlists that are to be fetched for an answer, no more than `limit`.
/// `entries` are those of the list that the answer was read as, if it could be.
pub fn playlist_list_uris_from_bytes(
    entries: Option<Vec<String>>,
    bytes: &[u8],
    limit: usize,
) -> (result: Result<Vec<String>, AppDataError>)
    ensures
        are_playlist_uris(entry_texts(entries), document_in(bytes@), bytes@, limit as nat, result),
{
    if entries.is_some() {
        playlist_list_uris(entries, None, bytes, limit)
    } else {
        playlist_list_uris(None, document(bytes), bytes, limit)
    }
}

/// Whether a list holds the addresses of artists in an answer: those in its
/// document, in ascending order, or else those that its bytes look like.
pub open spec fn are_artist_uris(
    document: Option<json::Json>,
    bytes: Seq<u8>,
    list: Seq<Seq<char>>,
) -> bool {
    match document {
        Some(value) => order::ascending(list) && list.to_set() == uris::with_prefix(
            json::texts_in(value),
            "spotify:artist:"@,
        ).to_set(),
        None => list == uris::distinct(
            uris::scanned(encoding::utf8_lossy(bytes), "spotify:artist:"@),
        ),
    }
}

/// Whether a result holds the first addresses of artists in an answer, or says
/// that there are none.
pub open spec fn are_followed_uris(
    document: Option<json::Json>,
    bytes: Seq<u8>,
    result: Result<Vec<String>, AppDataError>,
) -> bool {
    match result {
        Ok(list) => exists|all: Seq<Seq<char>>|
            all.len() > 0 && #[trigger] are_artist_uris(document, bytes, all) && text::texts(list@)
                == first_texts(all, FOLLOWED_LIMIT as nat),
        Err(error) => are_artist_uris(document, bytes, Seq::empty()) && error.is(
            ErrorKind::FailedPrecondition,
            "no artist uris found in followed artists payload"@,
        ),
    }
}

/// The texts of a list, each once and in ascending order.
fn ascending_texts(list: Vec<String>) -> (sorted: Vec<String>)
    ensures
        order::ascending(text::texts(sorted@)),
        text::texts(sorted@).to_set() == text::texts(list@).to_set(),
{
    let mut sorted: Vec<String> = Vec::new();
    let ghost given = text::texts(list@);
    assert(text::texts(sorted@).to_set() =~= given.take(0).to_set());
    for entry in it: list
        invariant
            it.seq() == list@,
            given == text::texts(list@),
            order::ascending(text::texts(sorted@)),
            text::texts(sorted@).to_set() == given.take(it.index() as int).to_set(),
    {
        let ghost done = it.index() as int;
        proof {
            assert(given.take(done + 1) =~= given.take(done).push(given[done]));
            assert(given.take(done + 1).to_set() =~= given.take(done).to_set().insert(
                given[done],
            )) by {
                assert forall|x: Seq<char>| #[trigger]
                    given.take(done).push(given[done]).contains(x) <==> given.take(done).contains(x)
                        || x == given[done] by {
                    let longer = given.take(done).push(given[done]);
                    if given.take(done).contains(x) {
                        let k = choose|k: int| 0 <= k < done && given.take(done)[k] == x;
                        assert(longer[k] == x);
                    }
                    assert(longer[done] == given[done]);
                }
            }
        }
        order::insert_ascending(&mut sorted, entry);
    }
    assert(given.take(given.len() as int) =~= given);
    sorted
}

/// The artists that are to be fetched for an answer about whom a user follows.
/// `document` is what the answer was read as, if it could be.
pub fn followed_artist_uris(document: Option<JsonValue>, bytes: &[u8]) -> (result: Result<
    Vec<String>,
    AppDataError,
>)
    ensures
        are_followed_uris(json::optional_view(document), bytes@, result),
{
    let list = match &document {
        Some(value) => {
            let mut found: Vec<String> = Vec::new();
            collect_json_spotify_uris(value, "spotify:artist:", &mut found);
            assert(text::texts(found@) =~= uris::with_prefix(
                json::texts_in(value.view()),
                "spotify:artist:"@,
            ));
            ascending_texts(found)
        },
        None => {
            proof {
                reveal_strlit("spotify:artist:");
            }
            uris::extract_spotify_uris_from_bytes(bytes, "spotify:artist:")
        },
    };
    let ghost all = text::texts(list@);
    assert(are_artist_uris(json::optional_view(document), bytes@, all));
    if list.len() == 0 {
        assert(all =~= Seq::empty());
        return Err(
            AppDataError::new(
                ErrorKind::FailedPrecondition,
                "no artist uris found in followed artists payload",
            ),
        );
    }
    Ok(first_of(list, FOLLOWED_LIMIT))
}

/// The artists that are to be fetched for an answer about whom a user follows.
pub fn followed_artist_uris_from_bytes(bytes: &[u8]) -> (result: Result<Vec<String>, AppDataError>)
    ensures
        are_followed_uris(document_in(bytes@), bytes@, result),
{
    followed_artist_uris(document(bytes), bytes)
}

/// Whether a result is the document that bytes hold, or says why they hold none.
pub open spec fn is_json_payload(
    bytes: Seq<u8>,
    result: Result<JsonPayload<serde_json::Value>, AppDataError>,
) -> bool {
    match json::json_read(bytes) {
        Ok(document) => result matches Ok(payload) && json::document_of(payload.value) == document,
        Err(message) => result matches Err(error) && error.is(
            ErrorKind::FailedPrecondition,
            message,
        ),
    }
}

/// The document that bytes hold, to be handed on as it is.
pub fn json_payload_from_bytes(bytes: &[u8]) -> (result: Result<
    JsonPayload<serde_json::Value>,
    AppDataError,
>)
    ensures
        is_json_payload(bytes@, result),
{
    match json::read_value(bytes) {
        Ok(value) => Ok(JsonPayload { value }),
        Err(message) => Err(AppDataError { kind: ErrorKind::FailedPrecondition, message }),
    }
}

/// The document that a context was written as, to be handed on as it is.
/// `written` is the text, or the message of the error with which the context
/// could not be written.
pub fn json_payload_from_context(written: Result<String, String>) -> (result: Result<
    JsonPayload<serde_json::Value>,
    AppDataError,
>)
    ensures
        match written {
            Ok(content) => is_json_payload(encode_utf8(content@), result),
            Err(message) => result matches Err(error) && error.is(
                ErrorKind::FailedPrecondition,
                message@,
            ),
        },
{
    match written {
        Ok(content) => json_payload_from_bytes(content.as_str().as_bytes()),
        Err(message) => Err(AppDataError { kind: ErrorKind::FailedPrecondition, message }),
    }
}

/// A user, from the bytes that describe them.
pub fn user_profile_from_bytes(username: String, country: String, bytes: &[u8]) -> (result: Result<
    UserProfilePayload,
    AppDataError,
>)
    ensures
        match json::json_read(bytes@) {
            Ok(document) => result matches Ok(payload) && payloads::is_user_profile(
                username@,
                country@,
                document,
                payload,
            ),
            Err(message) => result matches Err(error) && error.is(
                ErrorKind::FailedPrecondition,
                message,
            ),
        },
{
    match json::read_document(bytes) {
        Ok(profile) => Ok(user_profile(username, country, &profile)),
        Err(message) => Err(AppDataError { kind: ErrorKind::FailedPrecondition, message }),
    }
}

/// Whether the profile of a user is asked for their playlists: only where their
/// own list could not be had, or has none.
pub fn falls_back_to_profile(rootlist: &Result<PlaylistListPayload, AppDataError>) -> (falls: bool)
    ensures
        falls == match *rootlist {
            Ok(payload) => payload.items@.len() == 0,
            Err(_) => true,
        },
{
    match rootlist {
        Ok(payload) => payload.items.len() == 0,
        Err(_) => true,
    }
}

/// The file that a question names.
pub fn parse_file_id(file_id_hex: &str) -> (result: Result<FileId, AppDataError>)
    requires
        encoding::is_hex(file_id_hex@) ==> file_id_hex@.len() == 40,
    ensures
        result is Ok <==> encoding::is_hex(file_id_hex@),
        result matches Ok(file) ==> file.0@ == encoding::hex_bytes(file_id_hex@),
        result matches Err(error) ==> error.is(
            ErrorKind::InvalidArgument,
            encoding::hex_error_message(file_id_hex@),
        ),
{
    match encoding::hex_decode(file_id_hex) {
        Ok(bytes) => Ok(FileId::from_raw(&bytes)),
        Err(message) => Err(AppDataError { kind: ErrorKind::InvalidArgument, message }),
    }
}

/// What an address was read as. `E` is the type of errors.
#[derive(Debug)]
pub enum ParsedUri<E> {
    Track(SpotifyId),
    /// The address of something else.
    Other,
    Invalid(E),
}

/// Why an address names no track.
#[derive(Debug)]
pub enum TrackIdError<E> {
    Invalid(E),
    NotATrack(AppDataError),
}

/// The track that an address names.
pub fn parse_track_id<E>(parsed: ParsedUri<E>) -> (result: Result<SpotifyId, TrackIdError<E>>)
    ensures
        match parsed {
            ParsedUri::Track(id) => result == Ok::<SpotifyId, TrackIdError<E>>(id),
            ParsedUri::Other => match result {
                Err(TrackIdError::NotATrack(error)) => error.is(
                    ErrorKind::InvalidArgument,
                    "track_uri"@,
                ),
                _ => false,
            },
            ParsedUri::Invalid(cause) => result == Err::<SpotifyId, TrackIdError<E>>(
                TrackIdError::Invalid(cause),
            ),
        },
{
    match parsed {
        ParsedUri::Track(id) => Ok(id),
        ParsedUri::Other => Err(
            TrackIdError::NotATrack(
                AppDataError::new(ErrorKind::InvalidArgument, "track_uri"),
            ),
        ),
        ParsedUri::Invalid(cause) => Err(TrackIdError::Invalid(cause)),
    }
}

/// What the argument of a question for the root list is.
#[derive(Debug, Clone, Copy, PartialEq, Eq, Structural)]
pub enum RootlistArgument {
    /// A document that names where to begin and how much to list.
    Document,
    /// A number that says where to begin.
    From(usize),
}

/// Where a root list is to begin that is asked for without a document: at the
/// number that the argument is, or at the start if it is none.
pub open spec fn rootlist_from(argument: Seq<char>) -> nat {
    match text::unsigned_number(text::trimmed(argument), usize::MAX as nat) {
        Some(from) => from,
        None => 0,
    }
}

/// What the argument of a question for the root list is.
pub fn rootlist_argument(argument: &str) -> (result: RootlistArgument)
    ensures
        match result {
            RootlistArgument::Document => text::occurs_at(text::trimmed(argument@), "{"@, 0),
            RootlistArgument::From(from) => !text::occurs_at(text::trimmed(argument@), "{"@, 0)
                && from as nat == rootlist_from(argument@),
        },
{
    let trimmed = text::trim(argument);
    if text::starts_with(trimmed.as_str(), "{") {
        return RootlistArgument::Document;
    }
    match text::parse_unsigned(trimmed.as_str(), usize::MAX as u64) {
        Some(from) => RootlistArgument::From(from as usize),
        None => RootlistArgument::From(0),
    }
}

/// How many playlists and how many artists are asked for with the profile of a
/// user.
pub const PROFILE_LIMIT: u32 = 20;

/// What is fetched first to answer a question.
#[derive(Debug)]
pub enum FetchRequest {
    /// The thing that an address names.
    Metadata(String),
    /// What is played from an address.
    ContextOf(String),
    /// The profile of a user with so many of their playlists and artists.
    UserProfile { username: String, playlists: Option<u32>, artists: Option<u32> },
    /// The playlists of a user, from the first on.
    UserRootlist { username: String, length: usize },
    UserFollowers(String),
    UserFollowing(String),
    /// The lyrics of a track, unless they are stored.
    LyricsOf(String),
    /// What the document in the argument asks for.
    Document(String),
    RadioFor(String),
    NextPage(String),
    AudioStorage(FileId),
    AudioPreview(FileId),
    HeadFile(FileId),
    ImageFile(FileId),
    RootlistFrom(usize),
}

/// Whether a question is about the user who is logged in, unless it names one.
pub open spec fn asks_for_user(question: AppDataKind) -> bool {
    ||| question == AppDataKind::UserProfile
    ||| question == AppDataKind::UserPlaylists
    ||| question == AppDataKind::SavedTracks
    ||| question == AppDataKind::FollowedArtists
}

/// Whether the argument of a question is a file.
pub open spec fn asks_for_file(question: AppDataKind) -> bool {
    ||| question == AppDataKind::AudioStorageJson
    ||| question == AppDataKind::AudioPreviewBinary
    ||| question == AppDataKind::HeadFileBinary
    ||| question == AppDataKind::ImageBinary
}

/// The user that a question is about.
pub open spec fn asked_user(argument: Seq<char>, session_username: Seq<char>) -> Seq<char> {
    if argument.len() > 0 && argument != "current"@ {
        argument
    } else {
        session_username
    }
}

/// Whether a request is the one that answers a question with an argument.
pub open spec fn is_request(
    question: AppDataKind,
    argument: Seq<char>,
    session_username: Seq<char>,
    request: FetchRequest,
) -> bool {
    let user = asked_user(argument, session_username);
    match question {
        AppDataKind::Track => request matches FetchRequest::Metadata(uri) && uri@ == argument,
        AppDataKind::Album => request matches FetchRequest::Metadata(uri) && uri@ == argument,
        AppDataKind::Artist => request matches FetchRequest::Metadata(uri) && uri@ == argument,
        AppDataKind::Playlist => request matches FetchRequest::Metadata(uri) && uri@ == argument,
        AppDataKind::Episode => request matches FetchRequest::Metadata(uri) && uri@ == argument,
        AppDataKind::Show => request matches FetchRequest::Metadata(uri) && uri@ == argument,
        AppDataKind::PlaylistAnnotation => request matches FetchRequest::Metadata(uri) && uri@
            == argument,
        AppDataKind::UserProfile => request matches FetchRequest::UserProfile {
            username,
            playlists,
            artists,
        } && username@ == user && playlists == Some(PROFILE_LIMIT) && artists == Some(
            PROFILE_LIMIT,
        ),
        AppDataKind::UserPlaylists => request matches FetchRequest::UserRootlist {
            username,
            length,
        } && username@ == user && length == PLAYLIST_LIMIT,
        AppDataKind::SavedTracks => request matches FetchRequest::ContextOf(uri) && uri@
            == "spotify:user:"@ + user + ":collection"@,
        AppDataKind::Search => request matches FetchRequest::ContextOf(uri) && uri@
            == "spotify:search:"@ + text::replaced(argument, " "@, "+"@),
        AppDataKind::FollowedArtists => request matches FetchRequest::UserFollowing(username)
            && username@ == user,
        AppDataKind::Lyrics => request matches FetchRequest::LyricsOf(uri) && uri@ == argument,
        AppDataKind::LyricsForImage => request matches FetchRequest::Document(content) && content@
            == argument,
        AppDataKind::UserFollowersJson => request matches FetchRequest::UserFollowers(username)
            && username@ == argument,
        AppDataKind::UserFollowingJson => request matches FetchRequest::UserFollowing(username)
            && username@ == argument,
        AppDataKind::RadioForTrackJson => request matches FetchRequest::RadioFor(uri) && uri@
            == argument,
        AppDataKind::ApolloStationJson => request matches FetchRequest::Document(content)
            && content@ == argument,
        AppDataKind::NextPageJson => request matches FetchRequest::NextPage(uri) && uri@
            == argument,
        AppDataKind::AudioStorageJson => request matches FetchRequest::AudioStorage(file) && file.0@
            == encoding::hex_bytes(argument),
        AppDataKind::AudioPreviewBinary => request matches FetchRequest::AudioPreview(file)
            && file.0@ == encoding::hex_bytes(argument),
        AppDataKind::HeadFileBinary => request matches FetchRequest::HeadFile(file) && file.0@
            == encoding::hex_bytes(argument),
        AppDataKind::ImageBinary => request matches FetchRequest::ImageFile(file) && file.0@
            == encoding::hex_bytes(argument),
        AppDataKind::ContextJson => request matches FetchRequest::ContextOf(uri) && uri@
            == argument,
        AppDataKind::AutoplayContextJson => request matches FetchRequest::Document(content)
            && content@ == argument,
        AppDataKind::RootlistJson => if text::occurs_at(text::trimmed(argument), "{"@, 0) {
            request matches FetchRequest::Document(content) && content@ == argument
        } else {
            request matches FetchRequest::RootlistFrom(from) && from as nat == rootlist_from(
                argument,
            )
        },
    }
}

/// What is fetched first to answer a question. A question about the user who is
/// logged in needs one, and a question about a file needs the name of a file.
pub fn get_app_data(kind: i32, argument: &str, session_username: &str) -> (result: Result<
    (AppDataKind, FetchRequest),
    AppDataError,
>)
    requires
        20 <= kind <= 23 && encoding::is_hex(argument@) ==> argument@.len() == 40,
    ensures
        match result {
            Ok((question, request)) => {
                &&& question.raw() == kind
                &&& is_request(question, argument@, session_username@, request)
                &&& asks_for_user(question) ==> asked_user(argument@, session_username@).len() > 0
                &&& asks_for_file(question) ==> encoding::is_hex(argument@)
            },
            Err(error) => {
                ||| !(1 <= kind <= 26) && error.is(
                    ErrorKind::InvalidArgument,
                    "unknown app data request kind"@,
                )
                ||| (kind == 5 || kind == 6 || kind == 7 || kind == 9) && asked_user(
                    argument@,
                    session_username@,
                ).len() == 0 && error.is(
                    ErrorKind::FailedPrecondition,
                    "no username available for current-user librespot request"@,
                )
                ||| 20 <= kind <= 23 && !encoding::is_hex(argument@) && error.is(
                    ErrorKind::InvalidArgument,
                    encoding::hex_error_message(argument@),
                )
            },
        },
{
    let question = match AppDataKind::from_raw(kind) {
        Ok(question) => question,
        Err(error) => {
            return Err(error);
        },
    };
    let request = match question {
        AppDataKind::Track | AppDataKind::Album | AppDataKind::Artist | AppDataKind::Playlist
        | AppDataKind::Episode | AppDataKind::Show | AppDataKind::PlaylistAnnotation =>
        FetchRequest::Metadata(argument.to_owned()),
        AppDataKind::UserProfile => {
            let username = match resolve_username(argument, session_username) {
                Ok(username) => username,
                Err(error) => {
                    return Err(error);
                },
            };
            FetchRequest::UserProfile {
                username,
                playlists: Some(PROFILE_LIMIT),
                artists: Some(PROFILE_LIMIT),
            }
        },
        AppDataKind::UserPlaylists => {
            let username = match resolve_username(argument, session_username) {
                Ok(username) => username,
                Err(error) => {
                    return Err(error);
                },
            };
            FetchRequest::UserRootlist { username, length: PLAYLIST_LIMIT }
        },
        AppDataKind::SavedTracks => {
            let username = match resolve_username(argument, session_username) {
                Ok(username) => username,
                Err(error) => {
                    return Err(error);
                },
            };
            FetchRequest::ContextOf(collection_uri(username.as_str()))
        },
        AppDataKind::Search => FetchRequest::ContextOf(search_uri(argument)),
        AppDataKind::FollowedArtists => {
            let username = match resolve_username(argument, session_username) {
                Ok(username) => username,
                Err(error) => {
                    return Err(error);
                },
            };
            FetchRequest::UserFollowing(username)
        },
        AppDataKind::Lyrics => FetchRequest::LyricsOf(argument.to_owned()),
        AppDataKind::LyricsForImage | AppDataKind::ApolloStationJson
        | AppDataKind::AutoplayContextJson => FetchRequest::Document(argument.to_owned()),
        AppDataKind::UserFollowersJson => FetchRequest::UserFollowers(argument.to_owned()),
        AppDataKind::UserFollowingJson => FetchRequest::UserFollowing(argument.to_owned()),
        AppDataKind::RadioForTrackJson => FetchRequest::RadioFor(argument.to_owned()),
        AppDataKind::NextPageJson => FetchRequest::NextPage(argument.to_owned()),
        AppDataKind::AudioStorageJson | AppDataKind::AudioPreviewBinary
        | AppDataKind::HeadFileBinary | AppDataKind::ImageBinary => {
            let file = match parse_file_id(argument) {
                Ok(file) => file,
                Err(error) => {
                    return Err(error);
                },
            };
            match question {
                AppDataKind::AudioStorageJson => FetchRequest::AudioStorage(file),
                AppDataKind::AudioPreviewBinary => FetchRequest::AudioPreview(file),
                AppDataKind::HeadFileBinary => FetchRequest::HeadFile(file),
                _ => FetchRequest::ImageFile(file),
            }
        },
        AppDataKind::ContextJson => FetchRequest::ContextOf(argument.to_owned()),
        AppDataKind::RootlistJson => match rootlist_argument(argument) {
            RootlistArgument::Document => FetchRequest::Document(argument.to_owned()),
            RootlistArgument::From(from) => FetchRequest::RootlistFrom(from),
        },
    };
    Ok((question, request))
}

/// What a file is that answers a question.
pub open spec fn content_type_text(question: AppDataKind) -> Seq<char> {
    match question {
        AppDataKind::AudioPreviewBinary => "audio/mpeg"@,
        AppDataKind::ImageBinary => "image/jpeg"@,
        _ => "application/octet-stream"@,
    }
}

/// What a file is that answers a question.
pub fn content_type(question: AppDataKind) -> (content: &'static str)
    ensures
        content@ == content_type_text(question),
{
    match question {
        AppDataKind::AudioPreviewBinary => "audio/mpeg",
        AppDataKind::ImageBinary => "image/jpeg",
        _ => "application/octet-stream",
    }
}

/// The questions have the numbers from one to twenty-six on the C side, in the
/// order of what they ask for, and no two have the same.
pub proof fn law_questions_have_their_numbers(one: AppDataKind, other: AppDataKind)
    ensures
        1 <= one.raw() <= 26,
        one.raw() == other.raw() ==> one == other,
        one.raw() == 1 <==> one is Track,
        one.raw() == 2 <==> one is Album,
        one.raw() == 3 <==> one is Artist,
        one.raw() == 4 <==> one is Playlist,
        one.raw() == 5 <==> one is UserProfile,
        one.raw() == 6 <==> one is UserPlaylists,
        one.raw() == 7 <==> one is SavedTracks,
        one.raw() == 8 <==> one is Search,
        one.raw() == 9 <==> one is FollowedArtists,
        one.raw() == 10 <==> one is Lyrics,
        one.raw() == 11 <==> one is LyricsForImage,
        one.raw() == 12 <==> one is Episode,
        one.raw() == 13 <==> one is Show,
        one.raw() == 14 <==> one is PlaylistAnnotation,
        one.raw() == 15 <==> one is UserFollowersJson,
        one.raw() == 16 <==> one is UserFollowingJson,
        one.raw() == 17 <==> one is RadioForTrackJson,
        one.raw() == 18 <==> one is ApolloStationJson,
        one.raw() == 19 <==> one is NextPageJson,
        one.raw() == 20 <==> one is AudioStorageJson,
        one.raw() == 21 <==> one is AudioPreviewBinary,
        one.raw() == 22 <==> one is HeadFileBinary,
        one.raw() == 23 <==> one is ImageBinary,
        one.raw() == 24 <==> one is ContextJson,
        one.raw() == 25 <==> one is AutoplayContextJson,
        one.raw() == 26 <==> one is RootlistJson,
{
}

/// An answer answers the question that it is an answer to.
pub proof fn law_answers_name_their_question<V>(answer: AppDataPayload<V>)
    ensures
        answer.question() is Track <==> answer is Track,
        answer.question() is Album <==> answer is Album,
        answer.question() is Artist <==> answer is Artist,
        answer.question() is Playlist <==> answer is Playlist,
        answer.question() is UserProfile <==> answer is UserProfile,
        answer.question() is UserPlaylists <==> answer is UserPlaylists,
        answer.question() is SavedTracks <==> answer is SavedTracks,
        answer.question() is Search <==> answer is Search,
        answer.question() is FollowedArtists <==> answer is FollowedArtists,
        answer.question() is Lyrics <==> answer is Lyrics,
        answer.question() is LyricsForImage <==> answer is LyricsForImage,
        answer.question() is Episode <==> answer is Episode,
        answer.question() is Show <==> answer is Show,
        answer.question() is PlaylistAnnotation <==> answer is PlaylistAnnotation,
        answer.question() is UserFollowersJson <==> answer is UserFollowersJson,
        answer.question() is UserFollowingJson <==> answer is UserFollowingJson,
        answer.question() is RadioForTrackJson <==> answer is RadioForTrackJson,
        answer.question() is ApolloStationJson <==> answer is ApolloStationJson,
        answer.question() is NextPageJson <==> answer is NextPageJson,
        answer.question() is AudioStorageJson <==> answer is AudioStorageJson,
        answer.question() is AudioPreviewBinary <==> answer is AudioPreviewBinary,
        answer.question() is HeadFileBinary <==> answer is HeadFileBinary,
        answer.question() is ImageBinary <==> answer is ImageBinary,
        answer.question() is ContextJson <==> answer is ContextJson,
        answer.question() is AutoplayContextJson <==> answer is AutoplayContextJson,
        answer.question() is RootlistJson <==> answer is RootlistJson,
{
}

/// What is fetched is what was asked about: each request serves only the
/// questions that it is for, and carries the argument, the user or the file that
/// the question names.
pub proof fn law_a_request_fetches_what_was_asked(
    question: AppDataKind,
    argument: Seq<char>,
    session_username: Seq<char>,
    request: FetchRequest,
)
    requires
        is_request(question, argument, session_username, request),
    ensures
        ({
            let named = argument.len() > 0 && argument != "current"@;
            let user = if named {
                argument
            } else {
                session_username
            };
            match request {
                FetchRequest::Metadata(uri) => uri@ == argument && (question is Track
                    || question is Album || question is Artist || question is Playlist
                    || question is Episode || question is Show || question is PlaylistAnnotation),
                FetchRequest::ContextOf(uri) => {
                    ||| question is ContextJson && uri@ == argument
                    ||| question is SavedTracks && uri@ == "spotify:user:"@ + user
                        + ":collection"@
                    ||| question is Search && uri@ == "spotify:search:"@ + text::replaced(
                        argument,
                        " "@,
                        "+"@,
                    )
                },
                FetchRequest::UserProfile { username, playlists, artists } => question
                    is UserProfile && username@ == user && playlists == Some(20u32) && artists
                    == Some(20u32),
                FetchRequest::UserRootlist { username, length } => question is UserPlaylists
                    && username@ == user && length == 200,
                FetchRequest::UserFollowers(username) => question is UserFollowersJson && username@
                    == argument,
                FetchRequest::UserFollowing(username) => question is UserFollowingJson && username@
                    == argument || question is FollowedArtists && username@ == user,
                FetchRequest::LyricsOf(uri) => question is Lyrics && uri@ == argument,
                FetchRequest::Document(content) => content@ == argument && (question
                    is LyricsForImage || question is ApolloStationJson || question
                    is AutoplayContextJson || question is RootlistJson),
                FetchRequest::RadioFor(uri) => question is RadioForTrackJson && uri@ == argument,
                FetchRequest::NextPage(uri) => question is NextPageJson && uri@ == argument,
                FetchRequest::AudioStorage(file) => question is AudioStorageJson && file.0@
                    == encoding::hex_bytes(argument),
                FetchRequest::AudioPreview(file) => question is AudioPreviewBinary && file.0@
                    == encoding::hex_bytes(argument),
                FetchRequest::HeadFile(file) => question is HeadFileBinary && file.0@
                    == encoding::hex_bytes(argument),
                FetchRequest::ImageFile(file) => question is ImageBinary && file.0@
                    == encoding::hex_bytes(argument),
                FetchRequest::RootlistFrom(from) => question is RootlistJson && from as nat
                    == rootlist_from(argument),
            }
        }),
{
}

/// A question about the user who is logged in names them only where it names
/// nobody, and the questions that need a user or a file are these.
pub proof fn law_questions_need_their_argument(
    question: AppDataKind,
    argument: Seq<char>,
    session_username: Seq<char>,
)
    ensures
        asks_for_user(question) <==> question.raw() == 5 || question.raw() == 6 || question.raw()
            == 7 || question.raw() == 9,
        asks_for_file(question) <==> 20 <= question.raw() <= 23,
        argument.len() == 0 ==> asked_user(argument, session_username) == session_username,
        argument == "current"@ ==> asked_user(argument, session_username) == session_username,
        argument.len() > 0 && argument != "current"@ ==> asked_user(argument, session_username)
            == argument,
{
}

/// A list is cut to its limit from the end: what is left is the beginning of the
/// list, and all of it where it is short enough.
pub proof fn law_the_first_texts_are_kept(list: Seq<Seq<char>>, limit: nat)
    ensures
        ({
            let first = first_texts(list, limit);
            &&& first.len() <= limit
            &&& first.is_prefix_of(list)
            &&& list.len() <= limit ==> first == list
            &&& list.len() > limit ==> first.len() == limit
        }),
{
    let first = first_texts(list, limit);
    assert(first =~= list.take(first.len() as int));
}

/// What a search fetches of a kind are the first addresses of that kind: each
/// stands in the context and is of the kind, they are in ascending order, and an
/// address that is left out comes after all of them, and is left out only where
/// the limit is reached.
pub proof fn law_a_search_fetches_the_first_addresses(
    context: Context,
    kind: Seq<char>,
    limit: nat,
    list: Seq<Seq<char>>,
    uri: Seq<char>,
)
    requires
        are_first_uris(context, kind, limit, list),
    ensures
        list.len() <= limit,
        order::ascending(list),
        list.contains(uri) ==> uris::context_uris(context).contains(uri)
            && uris::kind_prefix(kind).is_prefix_of(uri),
        uris::context_uris(context).contains(uri) && uris::kind_prefix(kind).is_prefix_of(uri)
            && !list.contains(uri) ==> list.len() == limit && forall|i: int|
            0 <= i < list.len() ==> order::text_less(#[trigger] list[i], uri),
{
    let all = choose|all: Seq<Seq<char>>|
        {
            &&& #[trigger] order::ascending(all)
            &&& forall|uri: Seq<char>| #[trigger]
                all.to_set().contains(uri) <==> uris::context_uris(context).contains(uri)
                    && text::occurs_at(uri, uris::kind_prefix(kind), 0)
            &&& list == first_texts(all, limit)
        };
    law_the_first_texts_are_kept(all, limit);
    let prefix = uris::kind_prefix(kind);
    if uri.len() >= prefix.len() {
        assert(uri.subrange(0, prefix.len() as int) =~= uri.take(prefix.len() as int));
    }
    assert(text::occurs_at(uri, prefix, 0) <==> prefix.is_prefix_of(uri));
    assert(all.to_set().contains(uri) <==> all.contains(uri));
    assert(list =~= all.take(list.len() as int));
    assert forall|i: int, j: int| 0 <= i < j < list.len() implies order::text_less(
        #[trigger] list[i],
        #[trigger] list[j],
    ) by {
        assert(list[i] == all[i] && list[j] == all[j]);
    }
    if list.contains(uri) {
        let k = choose|k: int| 0 <= k < list.len() && list[k] == uri;
        assert(all[k] == uri);
        assert(all.contains(uri));
    }
    if all.contains(uri) && !list.contains(uri) {
        let k = choose|k: int| 0 <= k < all.len() && all[k] == uri;
        if k < list.len() {
            assert(list[k] == uri);
        }
        assert forall|i: int| 0 <= i < list.len() implies order::text_less(
            #[trigger] list[i],
            uri,
        ) by {
            assert(list[i] == all[i]);
            assert(order::text_less(all[i], all[k]));
        }
    }
}

/// The playlists in an answer are those of the list that it was read as, else
/// those of the document, else those that its bytes look like. They are
/// addresses of playlists, each listed once.
pub proof fn law_playlists_are_listed_once(
    entries: Option<Seq<Seq<char>>>,
    document: Option<json::Json>,
    bytes: Seq<u8>,
    uri: Seq<char>,
)
    ensures
        playlist_uris_in(entries, document, bytes).no_duplicates(),
        entries matches Some(list) ==> (playlist_uris_in(entries, document, bytes).contains(uri)
            <==> list.filter(
            |entry: Seq<char>| "spotify:playlist:"@.is_prefix_of(entry),
        ).contains(uri)),
        entries is None ==> (document matches Some(value) ==> (playlist_uris_in(
            entries,
            document,
            bytes,
        ).contains(uri) <==> json::texts_in(value).filter(
            |entry: Seq<char>| "spotify:playlist:"@.is_prefix_of(entry),
        ).contains(uri))),
        entries is None && document is None ==> (playlist_uris_in(entries, document, bytes).contains(
            uri,
        ) <==> uris::scanned(encoding::utf8_lossy(bytes), "spotify:playlist:"@).contains(uri)),
{
    let prefix = "spotify:playlist:"@;
    match entries {
        Some(list) => {
            uris::law_a_prefix_filters_a_list(list, prefix);
            uris::law_distinct_lists_each_text_once(uris::with_prefix(list, prefix));
        },
        None => match document {
            Some(value) => {
                uris::law_a_prefix_filters_a_list(json::texts_in(value), prefix);
                uris::law_distinct_lists_each_text_once(
                    uris::with_prefix(json::texts_in(value), prefix),
                );
            },
            None => {
                uris::law_distinct_lists_each_text_once(
                    uris::scanned(encoding::utf8_lossy(bytes), prefix),
                );
            },
        },
    }
}

/// A text without ends of lines is shown by its first two hundred and forty
/// characters, and the ends of lines in the beginning of a text are shown by the
/// letters that escape them.
pub proof fn law_previews_are_short(content: Seq<char>)
    ensures
        !content.contains('\r') && !content.contains('\n') && content.len() <= 240 ==> preview_of(
            content,
        ) == content,
        content.len() > 240 ==> preview_of(content) == preview_of(content.take(240)),
        preview_of("\r"@) == "\\r"@,
        preview_of("\n"@) == "\\n"@,
{
    reveal_strlit("\r");
    reveal_strlit("\n");
    reveal_strlit("\\r");
    reveal_strlit("\\n");
    assert("\r"@ =~= seq!['\r']);
    assert("\n"@ =~= seq!['\n']);
    if content.len() > 240 {
        assert(content.take(240).take(240) =~= content.take(240));
    }
    text::law_replacing_a_character(content, Seq::empty(), '\r', "\\r"@);
    text::law_replacing_a_character(content, Seq::empty(), '\n', "\\n"@);
    text::law_replacing_a_character("\\r"@, Seq::empty(), '\n', "\\n"@);
    text::law_replacing_a_character("\n"@, Seq::empty(), '\r', "\\r"@);
    assert(!"\\r"@.contains('\n'));
    assert(!"\n"@.contains('\r'));
}

/// A root list is begun at the number that was asked for, whatever white space is
/// around it, and at the start where no number was.
pub proof fn law_a_root_list_begins_where_it_was_asked_to(argument: Seq<char>, from: nat)
    requires
        from <= usize::MAX,
    ensures
        text::trimmed(argument) == text::decimal(from) ==> rootlist_from(argument) == from,
        text::trimmed(argument).len() == 0 ==> rootlist_from(argument) == 0,
        rootlist_from(argument) <= usize::MAX,
{
    text::law_numbers_are_read_within_their_limit(
        from,
        usize::MAX as nat,
        text::trimmed(argument),
    );
}

/// A preview is sound, an image is a picture, and anything else is just bytes.
pub proof fn law_files_are_of_their_kind(question: AppDataKind)
    ensures
        question is AudioPreviewBinary ==> content_type_text(question) == "audio/mpeg"@,
        question is ImageBinary ==> content_type_text(question) == "image/jpeg"@,
        !(question is AudioPreviewBinary) && !(question is ImageBinary) ==> content_type_text(
            question,
        ) == "application/octet-stream"@,
{
}

/// The artists in an answer are those that its document names, each once and in
/// ascending order, or else those that its bytes look like.
pub proof fn law_artists_are_those_of_the_document(
    document: Option<json::Json>,
    bytes: Seq<u8>,
    list: Seq<Seq<char>>,
    uri: Seq<char>,
)
    requires
        are_artist_uris(document, bytes, list),
    ensures
        list.no_duplicates(),
        document matches Some(value) ==> order::ascending(list) && (list.contains(uri)
            <==> json::texts_in(value).filter(
            |entry: Seq<char>| "spotify:artist:"@.is_prefix_of(entry),
        ).contains(uri)),
        document is None ==> (list.contains(uri) <==> uris::scanned(
            encoding::utf8_lossy(bytes),
            "spotify:artist:"@,
        ).contains(uri)),
{
    let prefix = "spotify:artist:"@;
    match document {
        Some(value) => {
            order::law_ascending_lists_have_one_order(list);
            uris::law_a_prefix_filters_a_list(json::texts_in(value), prefix);
            let kept = uris::with_prefix(json::texts_in(value), prefix);
            assert(list.to_set().contains(uri) <==> list.contains(uri));
            assert(kept.to_set().contains(uri) <==> kept.contains(uri));
        },
        None => {
            uris::law_distinct_lists_each_text_once(
                uris::scanned(encoding::utf8_lossy(bytes), prefix),
            );
        },
    }
}

/// The playlists of an answer are the first of those that are found in it, at
/// most as many as the limit, and all of them where they are fewer. There are
/// none only where none is found.
pub proof fn law_playlists_are_cut_to_the_limit(
    entries: Option<Seq<Seq<char>>>,
    document: Option<json::Json>,
    bytes: Seq<u8>,
    limit: nat,
    result: Result<Vec<String>, AppDataError>,
)
    requires
        are_playlist_uris(entries, document, bytes, limit, result),
    ensures
        ({
            let found = playlist_uris_in(entries, document, bytes);
            &&& result is Err <==> found.len() == 0
            &&& result matches Ok(list) ==> {
                &&& list@.len() <= limit && list@.len() <= found.len()
                &&& list@.len() == limit || list@.len() == found.len()
                &&& forall|i: int| 0 <= i < list@.len() ==> (#[trigger] list@[i])@ == found[i]
            }
        }),
{
    let found = playlist_uris_in(entries, document, bytes);
    law_the_first_texts_are_kept(found, limit);
    if let Ok(list) = result {
        let shown = text::texts(list@);
        assert(shown.len() == list@.len());
        assert forall|i: int| 0 <= i < list@.len() implies (#[trigger] list@[i])@ == found[i] by {
            assert(shown[i] == list@[i]@);
            assert(shown[i] == found[i]);
        }
    }
}

/// The artists that are followed are the first of those in the answer, at most
/// fifty, and all of them where they are fewer. There are none only where none is
/// found.
pub proof fn law_followed_artists_are_cut_to_fifty(
    document: Option<json::Json>,
    bytes: Seq<u8>,
    result: Result<Vec<String>, AppDataError>,
    all: Seq<Seq<char>>,
)
    requires
        are_followed_uris(document, bytes, result),
        are_artist_uris(document, bytes, all),
    ensures
        result is Err <==> all.len() == 0,
        result matches Ok(list) ==> {
            &&& list@.len() <= 50 && list@.len() <= all.len()
            &&& list@.len() == 50 || list@.len() == all.len()
            &&& forall|i: int| 0 <= i < list@.len() ==> all.contains((#[trigger] list@[i])@)
            &&& forall|i: int, j: int|
                document is Some && 0 <= i < j < list@.len() ==> order::text_less(
                    (#[trigger] list@[i])@,
                    (#[trigger] list@[j])@,
                )
        },
{
    match result {
        Ok(list) => {
            let found = choose|found: Seq<Seq<char>>|
                found.len() > 0 && #[trigger] are_artist_uris(document, bytes, found)
                    && text::texts(list@) == first_texts(found, FOLLOWED_LIMIT as nat);
            lemma_same_artists(document, bytes, found, all);
            law_the_first_texts_are_kept(found, FOLLOWED_LIMIT as nat);
            let shown = text::texts(list@);
            assert(shown.len() == list@.len());
            assert forall|i: int| 0 <= i < list@.len() implies all.contains((#[trigger] list@[i])@)
                && list@[i]@ == found[i] by {
                assert(shown[i] == list@[i]@);
                assert(shown[i] == found[i]);
                assert(found.contains(found[i]));
            }
        },
        Err(_) => {
            lemma_same_artists(document, bytes, Seq::empty(), all);
        },
    }
}

proof fn lemma_same_artists(
    document: Option<json::Json>,
    bytes: Seq<u8>,
    a: Seq<Seq<char>>,
    b: Seq<Seq<char>>,
)
    requires
        are_artist_uris(document, bytes, a),
        are_artist_uris(document, bytes, b),
    ensures
        a.len() == b.len(),
        forall|uri: Seq<char>| #[trigger] a.contains(uri) <==> b.contains(uri),
{
    if document is Some {
        order::law_ascending_lists_have_one_order(a);
        order::law_ascending_lists_have_one_order(b);
        a.unique_seq_to_set();
        b.unique_seq_to_set();
        assert forall|uri: Seq<char>| #[trigger] a.contains(uri) <==> b.contains(uri) by {
            assert(a.to_set().contains(uri) <==> a.contains(uri));
            assert(b.to_set().contains(uri) <==> b.contains(uri));
        }
    }
}

/// Bytes that hold a document are handed on as that document, and bytes that hold
/// none are refused: an answer is searched for addresses as a document exactly if
/// it could be handed on as one, and it is the same document.
pub proof fn law_an_answer_is_one_document(
    bytes: Seq<u8>,
    result: Result<JsonPayload<serde_json::Value>, AppDataError>,
)
    requires
        is_json_payload(bytes, result),
    ensures
        result is Ok <==> document_in(bytes) is Some,
        result matches Ok(payload) ==> document_in(bytes) == Some(
            json::document_of(payload.value),
        ),
        result matches Err(error) ==> json::json_read(bytes) is Err && error.is(
            ErrorKind::FailedPrecondition,
            json::json_read(bytes)->Err_0,
        ),
{
}

} // verus!
