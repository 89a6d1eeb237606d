//! What a frontend is given when it asks for tracks, albums, artists, playlists,
//! episodes and shows, made of what was fetched about them.
use crate::encoding;
use crate::ids::FileId;
use crate::json::{self, find_first_image_url, json_string, JsonValue};
use crate::text;
use vstd::prelude::*;

verus! {

/// A picture with an address.
#[derive(Debug)]
pub struct ImagePayload {
    pub url: String,
    pub width: i32,
    pub height: i32,
}

/// An artist in short.
#[derive(Debug)]
pub struct ArtistSummaryPayload {
    pub id: String,
    pub uri: String,
    pub name: String,
}

/// An album in short.
#[derive(Debug)]
pub struct AlbumSummaryPayload {
    pub id: String,
    pub uri: String,
    pub name: String,
    pub album_type: String,
    pub images: Vec<ImagePayload>,
    pub artists: Vec<ArtistSummaryPayload>,
}

/// A track of an album.
#[derive(Debug)]
pub struct SimpleTrackPayload {
    pub id: String,
    pub uri: String,
    pub name: String,
    pub duration_ms: i32,
    pub disc_number: i32,
    pub track_number: i32,
    pub artists: Vec<ArtistSummaryPayload>,
}

/// A track with its album.
#[derive(Debug)]
pub struct TrackPayload {
    pub id: String,
    pub uri: String,
    pub name: String,
    pub duration_ms: i32,
    pub disc_number: i32,
    pub track_number: i32,
    pub artists: Vec<ArtistSummaryPayload>,
    pub album: AlbumSummaryPayload,
}

/// An album with its tracks.
#[derive(Debug)]
pub struct AlbumPayload {
    pub id: String,
    pub uri: String,
    pub name: String,
    pub album_type: String,
    pub images: Vec<ImagePayload>,
    pub artists: Vec<ArtistSummaryPayload>,
    pub release_date: String,
    pub total_tracks: i32,
    pub tracks: Vec<SimpleTrackPayload>,
}

/// An artist with their albums.
#[derive(Debug)]
pub struct ArtistPayload {
    pub id: String,
    pub uri: String,
    pub name: String,
    pub images: Vec<ImagePayload>,
    pub albums: Vec<AlbumSummaryPayload>,
}

/// A track of a playlist.
#[derive(Debug)]
pub struct PlaylistTrackPayload {
    pub track: TrackPayload,
}

/// Whose a playlist is.
#[derive(Debug)]
pub struct OwnerPayload {
    pub id: String,
    pub display_name: String,
}

/// A playlist with its tracks.
#[derive(Debug)]
pub struct PlaylistPayload {
    pub id: String,
    pub uri: String,
    pub name: String,
    pub images: Vec<ImagePayload>,
    pub owner: OwnerPayload,
    pub tracks: Vec<PlaylistTrackPayload>,
}

/// A user.
#[derive(Debug)]
pub struct UserProfilePayload {
    pub id: String,
    pub uri: String,
    pub display_name: String,
    pub email: String,
    pub country: String,
    pub images: Vec<ImagePayload>,
}

/// A playlist in short.
#[derive(Debug)]
pub struct PlaylistSummaryPayload {
    pub id: String,
    pub uri: String,
    pub name: String,
    pub images: Vec<ImagePayload>,
}

/// Playlists.
#[derive(Debug)]
pub struct PlaylistListPayload {
    pub items: Vec<PlaylistSummaryPayload>,
}

/// Tracks.
#[derive(Debug)]
pub struct TrackListPayload {
    pub items: Vec<TrackPayload>,
}

/// Artists.
#[derive(Debug)]
pub struct ArtistListPayload {
    pub items: Vec<ArtistSummaryPayload>,
}

/// What a search found.
#[derive(Debug)]
pub struct SearchPayload {
    pub tracks: Vec<TrackPayload>,
    pub albums: Vec<AlbumSummaryPayload>,
    pub artists: Vec<ArtistSummaryPayload>,
    pub playlists: Vec<PlaylistSummaryPayload>,
}

/// A file of any kind.
#[derive(Debug)]
pub struct BinaryPayload {
    pub file_id_hex: String,
    pub content_type: String,
    pub byte_length: usize,
    pub base64: String,
}

/// A picture that is known by its file.
#[derive(Debug)]
pub struct ImageRefPayload {
    pub file_id_hex: String,
    pub size: String,
    pub width: i32,
    pub height: i32,
}

/// An audio file.
#[derive(Debug)]
pub struct AudioFilePayload {
    pub format: String,
    pub file_id_hex: String,
    pub mime_type: Option<String>,
}

/// Where something may not be played.
#[derive(Debug)]
pub struct RestrictionPayload {
    pub restriction_type: String,
    pub catalogues: Vec<String>,
    pub catalogue_strs: Vec<String>,
    pub countries_allowed: Option<Vec<String>>,
    pub countries_forbidden: Option<Vec<String>>,
}

/// From when on something may be played.
#[derive(Debug)]
pub struct AvailabilityPayload {
    pub catalogue_strs: Vec<String>,
    pub start: String,
}

/// How something is rated in a country.
#[derive(Debug)]
pub struct ContentRatingPayload {
    pub country: String,
    pub tags: Vec<String>,
}

/// Who has the rights in something.
#[derive(Debug)]
pub struct CopyrightPayload {
    pub copyright_type: String,
    pub text: String,
}

/// An episode of a show.
#[derive(Debug)]
pub struct EpisodePayload {
    pub id: String,
    pub uri: String,
    pub name: String,
    pub description: String,
    pub duration_ms: i32,
    pub number: i32,
    pub publish_time: String,
    pub language: String,
    pub is_explicit: bool,
    pub show_name: String,
    pub covers: Vec<ImageRefPayload>,
    pub freeze_frames: Vec<ImageRefPayload>,
    pub audio_files: Vec<AudioFilePayload>,
    pub audio_previews: Vec<AudioFilePayload>,
    pub video_files: Vec<String>,
    pub video_previews: Vec<String>,
    pub restrictions: Vec<RestrictionPayload>,
    pub availability: Vec<AvailabilityPayload>,
    pub keywords: Vec<String>,
    pub allow_background_playback: bool,
    pub external_url: String,
    pub episode_type: String,
    pub has_music_and_talk: bool,
    pub content_ratings: Vec<ContentRatingPayload>,
    pub is_audiobook_chapter: bool,
}

/// A show.
#[derive(Debug)]
pub struct ShowPayload {
    pub id: String,
    pub uri: String,
    pub name: String,
    pub description: String,
    pub publisher: String,
    pub language: String,
    pub is_explicit: bool,
    pub covers: Vec<ImageRefPayload>,
    pub episode_uris: Vec<String>,
    pub copyrights: Vec<CopyrightPayload>,
    pub restrictions: Vec<RestrictionPayload>,
    pub keywords: Vec<String>,
    pub media_type: String,
    pub consumption_order: String,
    pub availability: Vec<AvailabilityPayload>,
    pub trailer_uri: Option<String>,
    pub has_music_and_talk: bool,
    pub is_audiobook: bool,
}

/// A picture of a playlist in one size.
#[derive(Debug)]
pub struct TranscodedPicturePayload {
    pub target_name: String,
    pub uri: String,
}

/// What is said of a playlist.
#[derive(Debug)]
pub struct PlaylistAnnotationPayload {
    pub description: String,
    pub picture: String,
    pub transcoded_pictures: Vec<TranscodedPicturePayload>,
    pub has_abuse_reporting: bool,
    pub abuse_report_state: String,
}

/// A picture as it was fetched.
#[derive(Debug)]
pub struct Image {
    pub id: FileId,
    pub size: String,
    pub width: i32,
    pub height: i32,
}

/// A day.
#[derive(Debug, Clone, Copy, PartialEq, Eq, Structural)]
pub struct Date {
    pub year: i32,
    pub month: u8,
    pub day: u8,
}

/// An audio file as it was fetched.
#[derive(Debug)]
pub struct AudioFileInfo {
    pub format: String,
    pub id: FileId,
    pub mime_type: Option<String>,
}

/// From when on something may be played, as it was fetched.
#[derive(Debug)]
pub struct Availability {
    pub catalogue_strs: Vec<String>,
    pub start: Date,
}

/// An album as it was fetched.
#[derive(Debug)]
pub struct Album {
    pub id: String,
    pub uri: String,
    pub name: String,
    pub album_type: String,
    pub covers: Vec<Image>,
    pub artists: Vec<ArtistSummaryPayload>,
    pub date: Date,
}

/// A track as it was fetched.
#[derive(Debug)]
pub struct Track {
    pub id: String,
    pub uri: String,
    pub name: String,
    pub duration: i32,
    pub disc_number: i32,
    pub number: i32,
    pub artists: Vec<ArtistSummaryPayload>,
    pub album: Album,
}

/// An artist as they were fetched.
#[derive(Debug)]
pub struct Artist {
    pub id: String,
    pub uri: String,
    pub name: String,
    pub portraits: Vec<Image>,
}

/// An entry of a playlist as it was fetched.
#[derive(Debug)]
pub struct PlaylistItem {
    pub uri: String,
    pub is_track: bool,
}

/// A playlist as it was fetched.
#[derive(Debug)]
pub struct Playlist {
    pub id: String,
    pub uri: String,
    pub name: String,
    /// The addresses of its pictures.
    pub picture_urls: Vec<String>,
    pub user: Option<String>,
    pub items: Vec<PlaylistItem>,
}

/// A whole number in at least `width` characters, with zeros before it.
pub open spec fn padded_number(value: int, width: nat) -> Seq<char> {
    if value < 0 {
        "-"@ + text::padded_decimal((-value) as nat, (width - 1) as nat)
    } else {
        text::padded_decimal(value as nat, width)
    }
}

/// A day with its year, month and day of the month.
pub open spec fn date_text(date: Date) -> Seq<char> {
    padded_number(date.year as int, 4) + "-"@ + text::padded_decimal(date.month as nat, 2) + "-"@
        + text::padded_decimal(date.day as nat, 2)
}

/// A day with its year, month and day of the month.
pub fn format_date(date: Date) -> (content: String)
    ensures
        content@ == date_text(date),
{
    let year: i64 = date.year as i64;
    let mut content = if year < 0 {
        let digits = text::to_padded_decimal((-year) as u64, 3);
        text::concat("-", digits.as_str())
    } else {
        text::to_padded_decimal(year as u64, 4)
    };
    content.append("-");
    content.append(text::to_padded_decimal(date.month as u64, 2).as_str());
    content.append("-");
    content.append(text::to_padded_decimal(date.day as u64, 2).as_str());
    content
}

/// The address of a picture: the template with the file in its place.
pub open spec fn picture_url(template: Seq<char>, file: FileId) -> Seq<char> {
    text::replaced(template, "{file_id}"@, encoding::lower_hex(file.0@))
}

/// The address of a picture; nothing if there is no template for addresses.
pub fn image_url_for(template: Option<&str>, file: FileId) -> (url: Option<String>)
    ensures
        url is Some <==> template is Some,
        url matches Some(value) ==> value@ == picture_url(template->Some_0@, file),
{
    match template {
        Some(pattern) => {
            proof {
                reveal_strlit("{file_id}");
            }
            let name = file.to_base16();
            Some(text::replace(pattern, "{file_id}", name.as_str()))
        },
        None => None,
    }
}

/// Whether pictures with addresses are those that were fetched, one for one;
/// none where there is no template for addresses.
pub open spec fn are_images(
    template: Option<Seq<char>>,
    images: Seq<Image>,
    payloads: Seq<ImagePayload>,
) -> bool {
    match template {
        None => payloads.len() == 0,
        Some(pattern) => {
            &&& payloads.len() == images.len()
            &&& forall|i: int|
                0 <= i < images.len() ==> (#[trigger] payloads[i]).url@ == picture_url(
                    pattern,
                    images[i].id,
                ) && payloads[i].width == images[i].width && payloads[i].height == images[i].height
        },
    }
}

/// An optional text as a sequence of characters.
pub open spec fn optional(content: Option<&str>) -> Option<Seq<char>> {
    match content {
        Some(value) => Some(value@),
        None => None,
    }
}

/// The pictures that have an address.
pub fn map_images(template: Option<&str>, images: &Vec<Image>) -> (payloads: Vec<ImagePayload>)
    ensures
        are_images(optional(template), images@, payloads@),
{
    let mut payloads: Vec<ImagePayload> = Vec::new();
    let mut i: usize = 0;
    while i < images.len()
        invariant
            i <= images@.len(),
            template is None ==> payloads@.len() == 0,
            template is Some ==> payloads@.len() == i,
            template matches Some(pattern) ==> forall|k: int|
                0 <= k < i ==> (#[trigger] payloads@[k]).url@ == picture_url(
                    pattern@,
                    images@[k].id,
                ) && payloads@[k].width == images@[k].width && payloads@[k].height
                    == images@[k].height,
        decreases images@.len() - i,
    {
        if let Some(url) = image_url_for(template, images[i].id) {
            payloads.push(
                ImagePayload { url, width: images[i].width, height: images[i].height },
            );
        }
        i = i + 1;
    }
    payloads
}

/// Whether pictures that are known by their file are those that were fetched.
pub open spec fn are_image_refs(images: Seq<Image>, payloads: Seq<ImageRefPayload>) -> bool {
    &&& payloads.len() == images.len()
    &&& forall|i: int|
        0 <= i < images.len() ==> (#[trigger] payloads[i]).file_id_hex@ == encoding::lower_hex(
            images[i].id.0@,
        ) && payloads[i].size == images[i].size && payloads[i].width == images[i].width
            && payloads[i].height == images[i].height
}

/// The pictures by their files.
pub fn map_images_from_images(images: Vec<Image>) -> (payloads: Vec<ImageRefPayload>)
    ensures
        are_image_refs(images@, payloads@),
{
    let mut payloads: Vec<ImageRefPayload> = Vec::new();
    for image in it: images
        invariant
            it.seq() == images@,
            payloads@.len() == it.index(),
            forall|k: int|
                0 <= k < payloads@.len() ==> (#[trigger] payloads@[k]).file_id_hex@
                    == encoding::lower_hex(images@[k].id.0@) && payloads@[k].size == images@[k].size
                    && payloads@[k].width == images@[k].width && payloads@[k].height
                    == images@[k].height,
    {
        payloads.push(
            ImageRefPayload {
                file_id_hex: image.id.to_base16(),
                size: image.size,
                width: image.width,
                height: image.height,
            },
        );
    }
    payloads
}

/// Whether audio files are those that were fetched.
pub open spec fn are_audio_files(
    files: Seq<AudioFileInfo>,
    payloads: Seq<AudioFilePayload>,
) -> bool {
    &&& payloads.len() == files.len()
    &&& forall|i: int|
        0 <= i < files.len() ==> (#[trigger] payloads[i]).format == files[i].format
            && payloads[i].file_id_hex@ == encoding::lower_hex(files[i].id.0@)
            && payloads[i].mime_type == files[i].mime_type
}

/// The audio files.
pub fn map_audio_files(files: Vec<AudioFileInfo>) -> (payloads: Vec<AudioFilePayload>)
    ensures
        are_audio_files(files@, payloads@),
{
    let mut payloads: Vec<AudioFilePayload> = Vec::new();
    for file in it: files
        invariant
            it.seq() == files@,
            payloads@.len() == it.index(),
            forall|k: int|
                0 <= k < payloads@.len() ==> (#[trigger] payloads@[k]).format == files@[k].format
                    && payloads@[k].file_id_hex@ == encoding::lower_hex(files@[k].id.0@)
                    && payloads@[k].mime_type == files@[k].mime_type,
    {
        payloads.push(
            AudioFilePayload {
                format: file.format,
                file_id_hex: file.id.to_base16(),
                mime_type: file.mime_type,
            },
        );
    }
    payloads
}

/// The files by their names.
pub fn map_file_ids(files: &Vec<FileId>) -> (names: Vec<String>)
    ensures
        names@.len() == files@.len(),
        forall|i: int|
            0 <= i < files@.len() ==> (#[trigger] names@[i])@ == encoding::lower_hex(
                files@[i].0@,
            ),
{
    let mut names: Vec<String> = Vec::new();
    let mut i: usize = 0;
    while i < files.len()
        invariant
            i <= files@.len(),
            names@.len() == i,
            forall|k: int|
                0 <= k < i ==> (#[trigger] names@[k])@ == encoding::lower_hex(files@[k].0@),
        decreases files@.len() - i,
    {
        names.push(files[i].to_base16());
        i = i + 1;
    }
    names
}

/// Whether availabilities are those that were fetched.
pub open spec fn are_availabilities(
    entries: Seq<Availability>,
    payloads: Seq<AvailabilityPayload>,
) -> bool {
    &&& payloads.len() == entries.len()
    &&& forall|i: int|
        0 <= i < entries.len() ==> (#[trigger] payloads[i]).catalogue_strs
            == entries[i].catalogue_strs && payloads[i].start@ == date_text(entries[i].start)
}

/// The availabilities.
pub fn map_availabilities(entries: Vec<Availability>) -> (payloads: Vec<AvailabilityPayload>)
    ensures
        are_availabilities(entries@, payloads@),
{
    let mut payloads: Vec<AvailabilityPayload> = Vec::new();
    for entry in it: entries
        invariant
            it.seq() == entries@,
            payloads@.len() == it.index(),
            forall|k: int|
                0 <= k < payloads@.len() ==> (#[trigger] payloads@[k]).catalogue_strs
                    == entries@[k].catalogue_strs && payloads@[k].start@ == date_text(
                    entries@[k].start,
                ),
    {
        payloads.push(
            AvailabilityPayload {
                catalogue_strs: entry.catalogue_strs,
                start: format_date(entry.start),
            },
        );
    }
    payloads
}

/// A text in lower case.
pub uninterp spec fn lower_case(content: Seq<char>) -> Seq<char>;

/// Calls `str::to_lowercase`, which maps each character to its lower case. The
/// result is a function of the text alone.
#[verifier::external_body]
fn to_lower_case(content: &str) -> (result: String)
    ensures
        result@ == lower_case(content@),
{
    content.to_lowercase()
}

/// Whether an album in short is the one that was fetched.
pub open spec fn is_album_summary(
    template: Option<Seq<char>>,
    album: Album,
    payload: AlbumSummaryPayload,
) -> bool {
    &&& payload.id == album.id
    &&& payload.uri == album.uri
    &&& payload.name == album.name
    &&& payload.album_type@ == lower_case(album.album_type@)
    &&& are_images(template, album.covers@, payload.images@)
    &&& payload.artists == album.artists
}

/// An album in short.
pub fn map_album_summary_payload(template: Option<&str>, album: Album) -> (payload:
    AlbumSummaryPayload)
    ensures
        is_album_summary(optional(template), album, payload),
{
    AlbumSummaryPayload {
        album_type: to_lower_case(album.album_type.as_str()),
        images: map_images(template, &album.covers),
        id: album.id,
        uri: album.uri,
        name: album.name,
        artists: album.artists,
    }
}

/// Whether a track is the one that was fetched.
pub open spec fn is_track(
    template: Option<Seq<char>>,
    track: Track,
    payload: TrackPayload,
) -> bool {
    &&& payload.id == track.id
    &&& payload.uri == track.uri
    &&& payload.name == track.name
    &&& payload.duration_ms == track.duration
    &&& payload.disc_number == track.disc_number
    &&& payload.track_number == track.number
    &&& payload.artists == track.artists
    &&& is_album_summary(template, track.album, payload.album)
}

/// A track with its album.
pub fn map_track_payload(template: Option<&str>, track: Track) -> (payload: TrackPayload)
    ensures
        is_track(optional(template), track, payload),
{
    TrackPayload {
        id: track.id,
        uri: track.uri,
        name: track.name,
        duration_ms: track.duration,
        disc_number: track.disc_number,
        track_number: track.number,
        artists: track.artists,
        album: map_album_summary_payload(template, track.album),
    }
}

/// Whether a track of an album is the one that was fetched.
pub open spec fn is_simple_track(track: Track, payload: SimpleTrackPayload) -> bool {
    &&& payload.id == track.id
    &&& payload.uri == track.uri
    &&& payload.name == track.name
    &&& payload.duration_ms == track.duration
    &&& payload.disc_number == track.disc_number
    &&& payload.track_number == track.number
    &&& payload.artists == track.artists
}

/// A track of an album.
pub fn map_simple_track_payload(track: Track) -> (payload: SimpleTrackPayload)
    ensures
        is_simple_track(track, payload),
{
    SimpleTrackPayload {
        id: track.id,
        uri: track.uri,
        name: track.name,
        duration_ms: track.duration,
        disc_number: track.disc_number,
        track_number: track.number,
        artists: track.artists,
    }
}

/// What was fetched of a list, without what could not be.
pub open spec fn present<T>(results: Seq<Option<T>>) -> Seq<T>
    decreases results.len(),
{
    if results.len() == 0 {
        Seq::empty()
    } else {
        let before = present(results.drop_last());
        match results.last() {
            Some(value) => before.push(value),
            None => before,
        }
    }
}

/// What was fetched of a list, without what could not be.
pub fn fetched<T>(results: Vec<Option<T>>) -> (values: Vec<T>)
    ensures
        values@ == present(results@),
{
    let mut values: Vec<T> = Vec::new();
    let ghost given = results@;
    assert(given.take(0) =~= Seq::empty());
    for result in it: results
        invariant
            it.seq() == given,
            values@ == present(given.take(it.index() as int)),
    {
        assert(given.take(it.index() + 1).drop_last() =~= given.take(it.index() as int));
        assert(given.take(it.index() + 1).last() == given[it.index() as int]);
        if let Some(value) = result {
            values.push(value);
        }
    }
    assert(given.take(given.len() as int) =~= given);
    values
}

/// An album with those of its tracks that could be fetched.
pub fn album_payload(template: Option<&str>, album: Album, results: Vec<Option<Track>>) -> (payload:
    AlbumPayload)
    ensures
        payload.id == album.id,
        payload.uri == album.uri,
        payload.name == album.name,
        payload.album_type@ == lower_case(album.album_type@),
        are_images(optional(template), album.covers@, payload.images@),
        payload.artists == album.artists,
        payload.release_date@ == date_text(album.date),
        payload.total_tracks == payload.tracks@.len() as i32,
        payload.tracks@.len() == present(results@).len(),
        forall|i: int|
            0 <= i < payload.tracks@.len() ==> is_simple_track(
                present(results@)[i],
                #[trigger] payload.tracks@[i],
            ),
{
    let mut tracks: Vec<SimpleTrackPayload> = Vec::new();
    let ghost given = present(results@);
    for track in it: fetched(results)
        invariant
            it.seq() == given,
            tracks@.len() == it.index(),
            forall|k: int|
                0 <= k < tracks@.len() ==> is_simple_track(given[k], #[trigger] tracks@[k]),
    {
        tracks.push(map_simple_track_payload(track));
    }
    let total_tracks = tracks.len() as i32;
    AlbumPayload {
        album_type: to_lower_case(album.album_type.as_str()),
        images: map_images(template, &album.covers),
        release_date: format_date(album.date),
        id: album.id,
        uri: album.uri,
        name: album.name,
        artists: album.artists,
        total_tracks,
        tracks,
    }
}

/// Albums in short, of those that could be fetched.
fn album_summaries(template: Option<&str>, results: Vec<Option<Album>>) -> (albums: Vec<
    AlbumSummaryPayload,
>)
    ensures
        albums@.len() == present(results@).len(),
        forall|i: int|
            0 <= i < albums@.len() ==> is_album_summary(
                optional(template),
                present(results@)[i],
                #[trigger] albums@[i],
            ),
{
    let mut albums: Vec<AlbumSummaryPayload> = Vec::new();
    let ghost given = present(results@);
    for album in it: fetched(results)
        invariant
            it.seq() == given,
            albums@.len() == it.index(),
            forall|k: int|
                0 <= k < albums@.len() ==> is_album_summary(
                    optional(template),
                    given[k],
                    #[trigger] albums@[k],
                ),
    {
        albums.push(map_album_summary_payload(template, album));
    }
    albums
}

/// An artist with those of their albums that could be fetched.
pub fn artist_payload(template: Option<&str>, artist: Artist, results: Vec<Option<Album>>) -> (
    payload: ArtistPayload)
    ensures
        payload.id == artist.id,
        payload.uri == artist.uri,
        payload.name == artist.name,
        are_images(optional(template), artist.portraits@, payload.images@),
        payload.albums@.len() == present(results@).len(),
        forall|i: int|
            0 <= i < payload.albums@.len() ==> is_album_summary(
                optional(template),
                present(results@)[i],
                #[trigger] payload.albums@[i],
            ),
{
    ArtistPayload {
        images: map_images(template, &artist.portraits),
        albums: album_summaries(template, results),
        id: artist.id,
        uri: artist.uri,
        name: artist.name,
    }
}

/// An artist in short.
pub fn artist_summary(artist: ArtistPayload) -> (payload: ArtistSummaryPayload)
    ensures
        payload == (ArtistSummaryPayload { id: artist.id, uri: artist.uri, name: artist.name }),
{
    ArtistSummaryPayload { id: artist.id, uri: artist.uri, name: artist.name }
}

/// The addresses of the tracks among the entries of a playlist.
pub open spec fn track_uris(items: Seq<PlaylistItem>) -> Seq<Seq<char>>
    decreases items.len(),
{
    if items.len() == 0 {
        Seq::empty()
    } else {
        let before = track_uris(items.drop_last());
        if items.last().is_track {
            before.push(items.last().uri@)
        } else {
            before
        }
    }
}

/// The addresses of the tracks of a playlist, which are to be fetched.
pub fn playlist_track_uris(items: &Vec<PlaylistItem>) -> (uris: Vec<String>)
    ensures
        text::texts(uris@) == track_uris(items@),
{
    let mut uris: Vec<String> = Vec::new();
    let mut i: usize = 0;
    assert(items@.take(0) =~= Seq::empty());
    assert(text::texts(uris@) =~= Seq::empty());
    while i < items.len()
        invariant
            i <= items@.len(),
            text::texts(uris@) == track_uris(items@.take(i as int)),
        decreases items@.len() - i,
    {
        assert(items@.take(i + 1).drop_last() =~= items@.take(i as int));
        assert(items@.take(i + 1).last() == items@[i as int]);
        let ghost before = text::texts(uris@);
        if items[i].is_track {
            uris.push(items[i].uri.clone());
            assert(text::texts(uris@) =~= before.push(items@[i as int].uri@));
        }
        i = i + 1;
    }
    assert(items@.take(i as int) =~= items@);
    uris
}

/// Whether pictures are the one with the given address, of unknown size; none
/// if there is no address.
pub open spec fn is_single_image(url: Seq<char>, images: Seq<ImagePayload>) -> bool {
    if url.len() == 0 {
        images.len() == 0
    } else {
        images.len() == 1 && images[0].url@ == url && images[0].width == 0 && images[0].height == 0
    }
}

/// The address of the first picture of a playlist; an empty text if it has none.
pub open spec fn first_picture(playlist: Playlist) -> Seq<char> {
    if playlist.picture_urls@.len() > 0 {
        playlist.picture_urls@[0]@
    } else {
        Seq::empty()
    }
}

/// The picture of a playlist.
fn playlist_images(picture_urls: &Vec<String>) -> (images: Vec<ImagePayload>)
    ensures
        is_single_image(
            if picture_urls@.len() > 0 {
                picture_urls@[0]@
            } else {
                Seq::empty()
            },
            images@,
        ),
{
    let mut images: Vec<ImagePayload> = Vec::new();
    if picture_urls.len() > 0 && !text::is_empty(picture_urls[0].as_str()) {
        images.push(ImagePayload { url: picture_urls[0].clone(), width: 0, height: 0 });
    }
    images
}

/// A playlist with those of its tracks that could be fetched.
pub fn playlist_payload(
    template: Option<&str>,
    playlist: Playlist,
    results: Vec<Option<Track>>,
) -> (payload: PlaylistPayload)
    ensures
        payload.id == playlist.id,
        payload.uri == playlist.uri,
        payload.name == playlist.name,
        is_single_image(first_picture(playlist), payload.images@),
        payload.owner.id@ == match playlist.user {
            Some(user) => user@,
            None => Seq::empty(),
        },
        payload.owner.display_name@ == payload.owner.id@,
        payload.tracks@.len() == present(results@).len(),
        forall|i: int|
            0 <= i < payload.tracks@.len() ==> is_track(
                optional(template),
                present(results@)[i],
                (#[trigger] payload.tracks@[i]).track,
            ),
{
    let mut tracks: Vec<PlaylistTrackPayload> = Vec::new();
    let ghost given = present(results@);
    for track in it: fetched(results)
        invariant
            it.seq() == given,
            tracks@.len() == it.index(),
            forall|k: int|
                0 <= k < tracks@.len() ==> is_track(
                    optional(template),
                    given[k],
                    (#[trigger] tracks@[k]).track,
                ),
    {
        tracks.push(PlaylistTrackPayload { track: map_track_payload(template, track) });
    }
    let user = match playlist.user {
        Some(user) => user,
        None => {
            let nobody = String::new();
            assert(nobody@ =~= Seq::empty());
            nobody
        },
    };
    PlaylistPayload {
        images: playlist_images(&playlist.picture_urls),
        owner: OwnerPayload { id: user.clone(), display_name: user },
        id: playlist.id,
        uri: playlist.uri,
        name: playlist.name,
        tracks,
    }
}

/// A playlist in short.
pub fn playlist_summary(playlist: Playlist) -> (payload: PlaylistSummaryPayload)
    ensures
        payload.id == playlist.id,
        payload.uri == playlist.uri,
        payload.name == playlist.name,
        is_single_image(first_picture(playlist), payload.images@),
{
    PlaylistSummaryPayload {
        images: playlist_images(&playlist.picture_urls),
        id: playlist.id,
        uri: playlist.uri,
        name: playlist.name,
    }
}

/// The name of a user that their profile shows: the first of two fields that is
/// there, or else the name that they log in with.
pub open spec fn shown_name(profile: json::Json, username: Seq<char>) -> Seq<char> {
    match json::first_text(profile, seq!["name", "display_name"]) {
        Some(name) => name,
        None => username,
    }
}

/// Whether a user is the one that a document describes.
pub open spec fn is_user_profile(
    username: Seq<char>,
    country: Seq<char>,
    profile: json::Json,
    payload: UserProfilePayload,
) -> bool {
    &&& payload.id@ == username
    &&& payload.uri@ == "spotify:user:"@ + username
    &&& payload.display_name@ == shown_name(profile, username)
    &&& payload.email@.len() == 0
    &&& payload.country@ == country
    &&& match json::image_url(profile) {
        Some(url) => payload.images@.len() == 1 && payload.images@[0].url@ == url
            && payload.images@[0].width == 0 && payload.images@[0].height == 0,
        None => payload.images@.len() == 0,
    }
}

/// A user, from the document that describes them.
pub fn user_profile(username: String, country: String, profile: &JsonValue) -> (payload:
    UserProfilePayload)
    ensures
        is_user_profile(username@, country@, profile.view(), payload),
{
    let names = ["name", "display_name"];
    assert(names@ =~= seq!["name", "display_name"]);
    let display_name = match json_string(profile, names.as_slice()) {
        Some(name) => name,
        None => username.clone(),
    };
    let mut images: Vec<ImagePayload> = Vec::new();
    if let Some(url) = find_first_image_url(profile) {
        images.push(ImagePayload { url, width: 0, height: 0 });
    }
    UserProfilePayload {
        uri: text::concat("spotify:user:", username.as_str()),
        id: username,
        display_name,
        email: String::new(),
        country,
        images,
    }
}

/// A file of any kind, with its bytes as text.
pub fn binary_payload(file_id_hex: &str, content_type: &str, bytes: &[u8]) -> (payload:
    BinaryPayload)
    requires
        encoding::base64_len(bytes@.len()) <= isize::MAX,
    ensures
        payload.file_id_hex@ == file_id_hex@,
        payload.content_type@ == content_type@,
        payload.byte_length == bytes@.len(),
        payload.base64@ == encoding::base64_standard(bytes@),
{
    BinaryPayload {
        file_id_hex: file_id_hex.to_owned(),
        content_type: content_type.to_owned(),
        byte_length: bytes.len(),
        base64: encoding::base64_encode(bytes),
    }
}

/// An episode as it was fetched.
#[derive(Debug)]
pub struct Episode {
    pub id: String,
    pub uri: String,
    pub name: String,
    pub description: String,
    pub duration: i32,
    pub number: i32,
    pub publish_time: Date,
    pub language: String,
    pub is_explicit: bool,
    pub show_name: String,
    pub covers: Vec<Image>,
    pub freeze_frames: Vec<Image>,
    pub audio: Vec<AudioFileInfo>,
    pub audio_previews: Vec<AudioFileInfo>,
    pub videos: Vec<FileId>,
    pub video_previews: Vec<FileId>,
    pub restrictions: Vec<RestrictionPayload>,
    pub availability: Vec<Availability>,
    pub keywords: Vec<String>,
    pub allow_background_playback: bool,
    pub external_url: String,
    pub episode_type: String,
    pub has_music_and_talk: bool,
    pub content_ratings: Vec<ContentRatingPayload>,
    pub is_audiobook_chapter: bool,
}

/// An episode.
pub fn map_episode_payload(episode: Episode) -> (payload: EpisodePayload)
    ensures
        payload.id == episode.id,
        payload.uri == episode.uri,
        payload.name == episode.name,
        payload.description == episode.description,
        payload.duration_ms == episode.duration,
        payload.number == episode.number,
        payload.publish_time@ == date_text(episode.publish_time),
        payload.language == episode.language,
        payload.is_explicit == episode.is_explicit,
        payload.show_name == episode.show_name,
        are_image_refs(episode.covers@, payload.covers@),
        are_image_refs(episode.freeze_frames@, payload.freeze_frames@),
        are_audio_files(episode.audio@, payload.audio_files@),
        are_audio_files(episode.audio_previews@, payload.audio_previews@),
        payload.video_files@.len() == episode.videos@.len(),
        forall|i: int|
            0 <= i < episode.videos@.len() ==> (#[trigger] payload.video_files@[i])@
                == encoding::lower_hex(episode.videos@[i].0@),
        payload.video_previews@.len() == episode.video_previews@.len(),
        forall|i: int|
            0 <= i < episode.video_previews@.len() ==> (#[trigger] payload.video_previews@[i])@
                == encoding::lower_hex(episode.video_previews@[i].0@),
        payload.restrictions == episode.restrictions,
        are_availabilities(episode.availability@, payload.availability@),
        payload.keywords == episode.keywords,
        payload.allow_background_playback == episode.allow_background_playback,
        payload.external_url == episode.external_url,
        payload.episode_type == episode.episode_type,
        payload.has_music_and_talk == episode.has_music_and_talk,
        payload.content_ratings == episode.content_ratings,
        payload.is_audiobook_chapter == episode.is_audiobook_chapter,
{
    EpisodePayload {
        id: episode.id,
        uri: episode.uri,
        name: episode.name,
        description: episode.description,
        duration_ms: episode.duration,
        number: episode.number,
        publish_time: format_date(episode.publish_time),
        language: episode.language,
        is_explicit: episode.is_explicit,
        show_name: episode.show_name,
        covers: map_images_from_images(episode.covers),
        freeze_frames: map_images_from_images(episode.freeze_frames),
        audio_files: map_audio_files(episode.audio),
        audio_previews: map_audio_files(episode.audio_previews),
        video_files: map_file_ids(&episode.videos),
        video_previews: map_file_ids(&episode.video_previews),
        restrictions: episode.restrictions,
        availability: map_availabilities(episode.availability),
        keywords: episode.keywords,
        allow_background_playback: episode.allow_background_playback,
        external_url: episode.external_url,
        episode_type: episode.episode_type,
        has_music_and_talk: episode.has_music_and_talk,
        content_ratings: episode.content_ratings,
        is_audiobook_chapter: episode.is_audiobook_chapter,
    }
}

/// A show as it was fetched.
#[derive(Debug)]
pub struct Show {
    pub id: String,
    pub uri: String,
    pub name: String,
    pub description: String,
    pub publisher: String,
    pub language: String,
    pub is_explicit: bool,
    pub covers: Vec<Image>,
    pub episode_uris: Vec<String>,
    pub copyrights: Vec<CopyrightPayload>,
    pub restrictions: Vec<RestrictionPayload>,
    pub keywords: Vec<String>,
    pub media_type: String,
    pub consumption_order: String,
    pub availability: Vec<Availability>,
    pub trailer_uri: Option<String>,
    pub has_music_and_talk: bool,
    pub is_audiobook: bool,
}

/// A show.
pub fn map_show_payload(show: Show) -> (payload: ShowPayload)
    ensures
        payload.id == show.id,
        payload.uri == show.uri,
        payload.name == show.name,
        payload.description == show.description,
        payload.publisher == show.publisher,
        payload.language == show.language,
        payload.is_explicit == show.is_explicit,
        are_image_refs(show.covers@, payload.covers@),
        payload.episode_uris == show.episode_uris,
        payload.copyrights == show.copyrights,
        payload.restrictions == show.restrictions,
        payload.keywords == show.keywords,
        payload.media_type == show.media_type,
        payload.consumption_order == show.consumption_order,
        are_availabilities(show.availability@, payload.availability@),
        payload.trailer_uri == show.trailer_uri,
        payload.has_music_and_talk == show.has_music_and_talk,
        payload.is_audiobook == show.is_audiobook,
{
    ShowPayload {
        id: show.id,
        uri: show.uri,
        name: show.name,
        description: show.description,
        publisher: show.publisher,
        language: show.language,
        is_explicit: show.is_explicit,
        covers: map_images_from_images(show.covers),
        episode_uris: show.episode_uris,
        copyrights: show.copyrights,
        restrictions: show.restrictions,
        keywords: show.keywords,
        media_type: show.media_type,
        consumption_order: show.consumption_order,
        availability: map_availabilities(show.availability),
        trailer_uri: show.trailer_uri,
        has_music_and_talk: show.has_music_and_talk,
        is_audiobook: show.is_audiobook,
    }
}

/// A day of the common era reads as its year, month and day of the month, in
/// four, two and two digits with a dash between them.
pub proof fn law_days_are_written_out(date: Date)
    requires
        0 <= date.year <= 9_999,
        date.month <= 99,
        date.day <= 99,
    ensures
        ({
            let content = date_text(date);
            &&& content.len() == 10
            &&& content[4] == '-' && content[7] == '-'
            &&& text::number_of(content.subrange(0, 4)) == Some(date.year as nat)
            &&& text::number_of(content.subrange(5, 7)) == Some(date.month as nat)
            &&& text::number_of(content.subrange(8, 10)) == Some(date.day as nat)
        }),
{
    reveal_strlit("-");
    let year = text::padded_decimal(date.year as nat, 4);
    let month = text::padded_decimal(date.month as nat, 2);
    let day = text::padded_decimal(date.day as nat, 2);
    text::law_padded_numbers_read_back(date.year as nat, 4);
    text::law_padded_numbers_read_back(date.month as nat, 2);
    text::law_padded_numbers_read_back(date.day as nat, 2);
    lemma_few_digits(date.year as nat);
    lemma_few_digits(date.month as nat);
    lemma_few_digits(date.day as nat);
    text::law_padding_puts_noughts_before(date.year as nat, 4);
    text::law_padding_puts_noughts_before(date.month as nat, 2);
    text::law_padding_puts_noughts_before(date.day as nat, 2);
    let content = date_text(date);
    assert(content.subrange(0, 4) =~= year);
    assert(content.subrange(5, 7) =~= month);
    assert(content.subrange(8, 10) =~= day);
}

proof fn lemma_few_digits(value: nat)
    ensures
        value < 100 ==> text::decimal(value).len() <= 2,
        value < 10_000 ==> text::decimal(value).len() <= 4,
{
    text::law_decimal_form(value);
    text::law_decimal_form(value / 10);
    text::law_decimal_form(value / 10 / 10);
    text::law_decimal_form(value / 10 / 10 / 10);
}

/// The years before the common era are written with a sign before their digits.
pub proof fn law_earlier_years_have_a_sign(year: int, width: nat)
    requires
        year < 0,
        width > 0,
    ensures
        padded_number(year, width).len() >= width,
        padded_number(year, width)[0] == '-',
        text::number_of(padded_number(year, width).skip(1)) == Some((-year) as nat),
{
    reveal_strlit("-");
    let digits = text::padded_decimal((-year) as nat, (width - 1) as nat);
    text::law_padded_numbers_read_back((-year) as nat, (width - 1) as nat);
    text::law_padding_puts_noughts_before((-year) as nat, (width - 1) as nat);
    assert(padded_number(year, width).skip(1) =~= digits);
}

/// The address of a picture is the template with the name of the file where the
/// template has its mark.
pub proof fn law_pictures_are_addressed_by_their_file(a: Seq<char>, b: Seq<char>, file: FileId)
    requires
        !a.contains('{'),
        !b.contains('{'),
    ensures
        picture_url(a + "{file_id}"@ + b, file) == a + encoding::lower_hex(file.0@) + b,
{
    reveal_strlit("{file_id}");
    text::law_replacing_a_pattern(a, b, "{file_id}"@, encoding::lower_hex(file.0@));
}

/// Pictures are handed on one for one and in their order, each with its own file
/// and its own width and height; without a template none has an address.
pub proof fn law_pictures_are_handed_on(
    template: Option<Seq<char>>,
    images: Seq<Image>,
    payloads: Seq<ImagePayload>,
    refs: Seq<ImageRefPayload>,
    i: int,
)
    requires
        are_images(template, images, payloads),
        are_image_refs(images, refs),
        0 <= i < images.len(),
    ensures
        template is None ==> payloads.len() == 0,
        template matches Some(pattern) ==> {
            &&& payloads.len() == images.len()
            &&& payloads[i].url@ == picture_url(pattern, images[i].id)
            &&& payloads[i].width == images[i].width
            &&& payloads[i].height == images[i].height
        },
        refs.len() == images.len(),
        encoding::hex_bytes(refs[i].file_id_hex@) == images[i].id.0@,
        refs[i].size == images[i].size,
        refs[i].width == images[i].width,
        refs[i].height == images[i].height,
{
    encoding::law_hex_round_trip(images[i].id.0@);
    assert(refs[i].file_id_hex@ == encoding::lower_hex(images[i].id.0@));
    if template is Some {
        assert(payloads[i].width == images[i].width);
    }
}

/// Audio files and availabilities are handed on one for one and in their order.
pub proof fn law_files_are_handed_on(
    files: Seq<AudioFileInfo>,
    payloads: Seq<AudioFilePayload>,
    entries: Seq<Availability>,
    availabilities: Seq<AvailabilityPayload>,
)
    requires
        are_audio_files(files, payloads),
        are_availabilities(entries, availabilities),
    ensures
        payloads.len() == files.len(),
        availabilities.len() == entries.len(),
        forall|i: int|
            0 <= i < files.len() ==> {
                &&& (#[trigger] payloads[i]).format == files[i].format
                &&& encoding::hex_bytes(payloads[i].file_id_hex@) == files[i].id.0@
                &&& payloads[i].mime_type == files[i].mime_type
            },
        forall|i: int|
            0 <= i < entries.len() ==> {
                &&& (#[trigger] availabilities[i]).catalogue_strs == entries[i].catalogue_strs
                &&& availabilities[i].start@ == date_text(entries[i].start)
            },
{
    assert forall|i: int| 0 <= i < files.len() implies encoding::hex_bytes(
        (#[trigger] payloads[i]).file_id_hex@,
    ) == files[i].id.0@ by {
        encoding::law_hex_round_trip(files[i].id.0@);
    }
}

/// A track is shown with its own address, name, length and place, its own
/// artists, and the album that it is on; on an album it is shown alike.
pub proof fn law_a_track_is_shown_as_it_is(
    template: Option<Seq<char>>,
    track: Track,
    payload: TrackPayload,
    simple: SimpleTrackPayload,
)
    requires
        is_track(template, track, payload),
        is_simple_track(track, simple),
    ensures
        payload.id == track.id && simple.id == track.id,
        payload.uri == track.uri && simple.uri == track.uri,
        payload.name == track.name && simple.name == track.name,
        payload.duration_ms == track.duration && simple.duration_ms == track.duration,
        payload.disc_number == track.disc_number && simple.disc_number == track.disc_number,
        payload.track_number == track.number && simple.track_number == track.number,
        payload.artists == track.artists && simple.artists == track.artists,
        payload.album.id == track.album.id,
        payload.album.uri == track.album.uri,
        payload.album.name == track.album.name,
        payload.album.album_type@ == lower_case(track.album.album_type@),
        payload.album.artists == track.album.artists,
        template is Some ==> payload.album.images@.len() == track.album.covers@.len(),
        template is None ==> payload.album.images@.len() == 0,
{
}

/// What could be fetched is listed in its order, and nothing else: a list is gone
/// through part by part, and of each entry its value is taken, if there is one.
pub proof fn law_what_was_fetched_is_listed<T>(a: Seq<Option<T>>, b: Seq<Option<T>>, value: T)
    ensures
        present(a + b) == present(a) + present(b),
        present(seq![Some(value)]) == seq![value],
        present(seq![None::<T>]) == Seq::<T>::empty(),
        present(a).len() <= a.len(),
    decreases b.len(),
{
    let one = seq![Some(value)];
    let gap = seq![None::<T>];
    assert(one.drop_last() =~= Seq::empty());
    assert(gap.drop_last() =~= Seq::empty());
    assert(present(one.drop_last()) =~= Seq::empty());
    assert(present(one) =~= seq![value]);
    if b.len() == 0 {
        assert(a + b =~= a);
        assert(present(a) + present(b) =~= present(a));
        lemma_present_len(a);
    } else {
        law_what_was_fetched_is_listed(a, b.drop_last(), value);
        assert((a + b).drop_last() =~= a + b.drop_last());
        assert((a + b).last() == b.last());
        assert(present(a + b) =~= present(a) + present(b));
    }
}

proof fn lemma_present_len<T>(a: Seq<Option<T>>)
    ensures
        present(a).len() <= a.len(),
    decreases a.len(),
{
    if a.len() > 0 {
        lemma_present_len(a.drop_last());
    }
}

/// Of the entries of a playlist those that are tracks are fetched, in their
/// order, and no others.
pub proof fn law_tracks_of_a_playlist_are_fetched(
    a: Seq<PlaylistItem>,
    b: Seq<PlaylistItem>,
    item: PlaylistItem,
)
    ensures
        track_uris(a + b) == track_uris(a) + track_uris(b),
        item.is_track ==> track_uris(seq![item]) == seq![item.uri@],
        !item.is_track ==> track_uris(seq![item]) == Seq::<Seq<char>>::empty(),
    decreases b.len(),
{
    let one = seq![item];
    assert(one.drop_last() =~= Seq::empty());
    assert(track_uris(one.drop_last()) =~= Seq::empty());
    if item.is_track {
        assert(track_uris(one) =~= seq![item.uri@]);
    }
    if b.len() == 0 {
        assert(a + b =~= a);
        assert(track_uris(a) + track_uris(b) =~= track_uris(a));
    } else {
        law_tracks_of_a_playlist_are_fetched(a, b.drop_last(), item);
        assert((a + b).drop_last() =~= a + b.drop_last());
        assert((a + b).last() == b.last());
        assert(track_uris(a + b) =~= track_uris(a) + track_uris(b));
    }
}

/// A playlist has the first of its pictures, if that has an address, and no
/// other.
pub proof fn law_a_playlist_has_its_first_picture(playlist: Playlist, images: Seq<ImagePayload>)
    requires
        is_single_image(first_picture(playlist), images),
    ensures
        images.len() <= 1,
        images.len() == 1 <==> playlist.picture_urls@.len() > 0
            && playlist.picture_urls@[0]@.len() > 0,
        images.len() == 1 ==> images[0].url@ == playlist.picture_urls@[0]@,
        images.len() == 1 ==> images[0].width == 0 && images[0].height == 0,
{
}

/// A user is shown by the name in their profile, and by their login where it has
/// none. The address is that of the login, and at most one picture is shown.
pub proof fn law_a_user_is_shown_by_their_profile(
    username: Seq<char>,
    country: Seq<char>,
    profile: json::Json,
    payload: UserProfilePayload,
)
    requires
        is_user_profile(username, country, profile, payload),
    ensures
        payload.id@ == username,
        payload.uri@ == "spotify:user:"@ + username,
        payload.country@ == country,
        payload.email@.len() == 0,
        payload.images@.len() <= 1,
        payload.images@.len() == 1 <==> json::image_url(profile) is Some,
        json::image_url(profile) matches Some(url) ==> payload.images@[0].url@ == url,
        json::text_member(profile, "name"@) matches Some(name) ==> payload.display_name@ == name,
        json::text_member(profile, "name"@) is None ==> match json::text_member(
            profile,
            "display_name"@,
        ) {
            Some(name) => payload.display_name@ == name,
            None => payload.display_name@ == username,
        },
{
    let names = seq!["name", "display_name"];
    assert(names.skip(1) =~= seq!["display_name"]);
    assert(names.skip(1).skip(1) =~= Seq::empty());
    reveal_with_fuel(json::first_text, 3);
}

} // verus!
