//! Records that are handed to C: texts without NUL, and lists whose length is
//! handed on with them.
use crate::payloads::{
    AlbumPayload, AlbumSummaryPayload, ArtistListPayload, ArtistPayload, ArtistSummaryPayload,
    ImagePayload, OwnerPayload, PlaylistListPayload, PlaylistPayload, PlaylistSummaryPayload,
    PlaylistTrackPayload, SearchPayload, SimpleTrackPayload, TrackListPayload, TrackPayload,
    UserProfilePayload,
};
use crate::text;
use vstd::prelude::*;

verus! {

/// A text in which a backslash and a zero stand for each NUL.
pub open spec fn escaped(content: Seq<char>) -> Seq<char> {
    text::replaced(content, "\0"@, "\\0"@)
}

/// A text in which a backslash and a zero stand for each NUL.
pub fn ffi_string(value: &str) -> (content: String)
    ensures
        content@ == escaped(value@),
{
    proof {
        reveal_strlit("\0");
    }
    text::replace(value, "\0", "\\0")
}

/// A text that is handed to C holds no NUL, so that none is cut short.
pub proof fn law_escaped_texts_hold_no_nul(content: Seq<char>)
    ensures
        !escaped(content).contains('\0'),
    decreases content.len(),
{
    reveal_strlit("\0");
    reveal_strlit("\\0");
    if content.len() > 0 {
        let nul = "\0"@;
        assert(nul =~= seq!['\0']);
        law_escaped_texts_hold_no_nul(content.skip(1));
        if content[0] == '\0' {
            assert(content.subrange(0, 1) =~= nul);
            assert(text::occurs_at(content, nul, 0));
        } else {
            assert(content.subrange(0, 1)[0] == content[0]);
            assert(!text::occurs_at(content, nul, 0));
        }
        let result = escaped(content);
        let rest = escaped(content.skip(1));
        assert forall|i: int| 0 <= i < result.len() implies result[i] != '\0' by {
            let skipped = result.len() - rest.len();
            if i >= skipped {
                assert(result[i] == rest[i - skipped]);
                assert(rest.contains(rest[i - skipped]));
            }
        }
    }
}

/// A text without NUL is handed on as it is.
pub proof fn law_plain_texts_are_kept(content: Seq<char>)
    requires
        !content.contains('\0'),
    ensures
        escaped(content) == content,
    decreases content.len(),
{
    reveal_strlit("\0");
    if content.len() > 0 {
        let nul = "\0"@;
        assert(nul =~= seq!['\0']);
        assert(content.contains(content[0]));
        assert(content.subrange(0, 1)[0] == content[0]);
        assert(!text::occurs_at(content, nul, 0));
        assert forall|i: int| 0 <= i < content.skip(1).len() implies content.skip(1)[i] != '\0' by {
            assert(content.contains(content[i + 1]));
        }
        law_plain_texts_are_kept(content.skip(1));
        assert(seq![content[0]] + content.skip(1) =~= content);
    }
}

/// A picture for C.
#[derive(Debug)]
pub struct FfiImage {
    pub url: String,
    pub width: i32,
    pub height: i32,
}

/// An artist in short for C.
#[derive(Debug)]
pub struct FfiArtistSummary {
    pub id: String,
    pub uri: String,
    pub name: String,
}

/// An album in short for C.
#[derive(Debug)]
pub struct FfiAlbumSummary {
    pub id: String,
    pub uri: String,
    pub name: String,
    pub album_type: String,
    pub release_date: String,
    pub total_tracks: i32,
    pub images: Vec<FfiImage>,
    pub artists: Vec<FfiArtistSummary>,
}

/// A track of an album for C.
#[derive(Debug)]
pub struct FfiSimpleTrack {
    pub id: String,
    pub uri: String,
    pub name: String,
    pub duration_ms: i32,
    pub disc_number: i32,
    pub track_number: i32,
    pub artists: Vec<FfiArtistSummary>,
}

/// A track with its album for C.
#[derive(Debug)]
pub struct FfiTrack {
    pub id: String,
    pub uri: String,
    pub name: String,
    pub duration_ms: i32,
    pub disc_number: i32,
    pub track_number: i32,
    pub artists: Vec<FfiArtistSummary>,
    pub album: FfiAlbumSummary,
}

/// An album with its tracks for C.
#[derive(Debug)]
pub struct FfiAlbum {
    pub id: String,
    pub uri: String,
    pub name: String,
    pub album_type: String,
    pub release_date: String,
    pub total_tracks: i32,
    pub images: Vec<FfiImage>,
    pub artists: Vec<FfiArtistSummary>,
    pub tracks: Vec<FfiSimpleTrack>,
}

/// An artist with their albums for C.
#[derive(Debug)]
pub struct FfiArtist {
    pub id: String,
    pub uri: String,
    pub name: String,
    pub images: Vec<FfiImage>,
    pub albums: Vec<FfiAlbumSummary>,
}

/// Whose a playlist is, for C.
#[derive(Debug)]
pub struct FfiOwner {
    pub id: String,
    pub display_name: String,
}

/// A playlist in short for C.
#[derive(Debug)]
pub struct FfiPlaylistSummary {
    pub id: String,
    pub uri: String,
    pub name: String,
    pub images: Vec<FfiImage>,
}

/// A playlist with its tracks for C.
#[derive(Debug)]
pub struct FfiPlaylist {
    pub id: String,
    pub uri: String,
    pub name: String,
    pub images: Vec<FfiImage>,
    pub owner: FfiOwner,
    pub tracks: Vec<FfiTrack>,
}

/// A user for C.
#[derive(Debug)]
pub struct FfiUserProfile {
    pub id: String,
    pub uri: String,
    pub display_name: String,
    pub email: String,
    pub country: String,
    pub images: Vec<FfiImage>,
}

/// Playlists for C.
#[derive(Debug)]
pub struct FfiPlaylistList {
    pub items: Vec<FfiPlaylistSummary>,
}

/// Tracks for C.
#[derive(Debug)]
pub struct FfiTrackList {
    pub items: Vec<FfiTrack>,
}

/// Artists for C.
#[derive(Debug)]
pub struct FfiArtistList {
    pub items: Vec<FfiArtistSummary>,
}

/// What a search found, for C.
#[derive(Debug)]
pub struct FfiSearch {
    pub tracks: Vec<FfiTrack>,
    pub albums: Vec<FfiAlbumSummary>,
    pub artists: Vec<FfiArtistSummary>,
    pub playlists: Vec<FfiPlaylistSummary>,
}

/// Whether a picture for C is the one of a payload.
pub open spec fn is_image(payload: ImagePayload, record: FfiImage) -> bool {
    &&& record.url@ == escaped(payload.url@)
    &&& record.width == payload.width
    &&& record.height == payload.height
}

/// Whether pictures for C are those of payloads, one for one.
pub open spec fn are_images(payloads: Seq<ImagePayload>, records: Seq<FfiImage>) -> bool {
    &&& records.len() == payloads.len()
    &&& forall|i: int|
        0 <= i < payloads.len() ==> is_image(payloads[i], #[trigger] records[i])
}

/// Whether an artist in short for C is the one of a payload.
pub open spec fn is_artist_summary(
    payload: ArtistSummaryPayload,
    record: FfiArtistSummary,
) -> bool {
    &&& record.id@ == escaped(payload.id@)
    &&& record.uri@ == escaped(payload.uri@)
    &&& record.name@ == escaped(payload.name@)
}

/// Whether artists for C are those of payloads, one for one.
pub open spec fn are_artist_summaries(
    payloads: Seq<ArtistSummaryPayload>,
    records: Seq<FfiArtistSummary>,
) -> bool {
    &&& records.len() == payloads.len()
    &&& forall|i: int|
        0 <= i < payloads.len() ==> is_artist_summary(payloads[i], #[trigger] records[i])
}

/// Whether an album in short for C is the one of a payload.
pub open spec fn is_album_summary(payload: AlbumSummaryPayload, record: FfiAlbumSummary) -> bool {
    &&& record.id@ == escaped(payload.id@)
    &&& record.uri@ == escaped(payload.uri@)
    &&& record.name@ == escaped(payload.name@)
    &&& record.album_type@ == escaped(payload.album_type@)
    &&& record.release_date@.len() == 0
    &&& record.total_tracks == 0
    &&& are_images(payload.images@, record.images@)
    &&& are_artist_summaries(payload.artists@, record.artists@)
}

/// Whether albums for C are those of payloads, one for one.
pub open spec fn are_album_summaries(
    payloads: Seq<AlbumSummaryPayload>,
    records: Seq<FfiAlbumSummary>,
) -> bool {
    &&& records.len() == payloads.len()
    &&& forall|i: int|
        0 <= i < payloads.len() ==> is_album_summary(payloads[i], #[trigger] records[i])
}

/// Whether a track of an album for C is the one of a payload.
pub open spec fn is_simple_track(payload: SimpleTrackPayload, record: FfiSimpleTrack) -> bool {
    &&& record.id@ == escaped(payload.id@)
    &&& record.uri@ == escaped(payload.uri@)
    &&& record.name@ == escaped(payload.name@)
    &&& record.duration_ms == payload.duration_ms
    &&& record.disc_number == payload.disc_number
    &&& record.track_number == payload.track_number
    &&& are_artist_summaries(payload.artists@, record.artists@)
}

/// Whether tracks of an album for C are those of payloads, one for one.
pub open spec fn are_simple_tracks(
    payloads: Seq<SimpleTrackPayload>,
    records: Seq<FfiSimpleTrack>,
) -> bool {
    &&& records.len() == payloads.len()
    &&& forall|i: int|
        0 <= i < payloads.len() ==> is_simple_track(payloads[i], #[trigger] records[i])
}

/// Whether a track for C is the one of a payload.
pub open spec fn is_track(payload: TrackPayload, record: FfiTrack) -> bool {
    &&& record.id@ == escaped(payload.id@)
    &&& record.uri@ == escaped(payload.uri@)
    &&& record.name@ == escaped(payload.name@)
    &&& record.duration_ms == payload.duration_ms
    &&& record.disc_number == payload.disc_number
    &&& record.track_number == payload.track_number
    &&& are_artist_summaries(payload.artists@, record.artists@)
    &&& is_album_summary(payload.album, record.album)
}

/// Whether tracks for C are those of payloads, one for one.
pub open spec fn are_tracks(payloads: Seq<TrackPayload>, records: Seq<FfiTrack>) -> bool {
    &&& records.len() == payloads.len()
    &&& forall|i: int|
        0 <= i < payloads.len() ==> is_track(payloads[i], #[trigger] records[i])
}

/// Whether an album for C is the one of a payload.
pub open spec fn is_album(payload: AlbumPayload, record: FfiAlbum) -> bool {
    &&& record.id@ == escaped(payload.id@)
    &&& record.uri@ == escaped(payload.uri@)
    &&& record.name@ == escaped(payload.name@)
    &&& record.album_type@ == escaped(payload.album_type@)
    &&& record.release_date@ == escaped(payload.release_date@)
    &&& record.total_tracks == payload.total_tracks
    &&& are_images(payload.images@, record.images@)
    &&& are_artist_summaries(payload.artists@, record.artists@)
    &&& are_simple_tracks(payload.tracks@, record.tracks@)
}

/// Whether an artist for C is the one of a payload.
pub open spec fn is_artist(payload: ArtistPayload, record: FfiArtist) -> bool {
    &&& record.id@ == escaped(payload.id@)
    &&& record.uri@ == escaped(payload.uri@)
    &&& record.name@ == escaped(payload.name@)
    &&& are_images(payload.images@, record.images@)
    &&& are_album_summaries(payload.albums@, record.albums@)
}

/// Whether an owner for C is the one of a payload.
pub open spec fn is_owner(payload: OwnerPayload, record: FfiOwner) -> bool {
    &&& record.id@ == escaped(payload.id@)
    &&& record.display_name@ == escaped(payload.display_name@)
}

/// Whether a playlist in short for C is the one of a payload.
pub open spec fn is_playlist_summary(
    payload: PlaylistSummaryPayload,
    record: FfiPlaylistSummary,
) -> bool {
    &&& record.id@ == escaped(payload.id@)
    &&& record.uri@ == escaped(payload.uri@)
    &&& record.name@ == escaped(payload.name@)
    &&& are_images(payload.images@, record.images@)
}

/// Whether playlists for C are those of payloads, one for one.
pub open spec fn are_playlist_summaries(
    payloads: Seq<PlaylistSummaryPayload>,
    records: Seq<FfiPlaylistSummary>,
) -> bool {
    &&& records.len() == payloads.len()
    &&& forall|i: int|
        0 <= i < payloads.len() ==> is_playlist_summary(payloads[i], #[trigger] records[i])
}

/// Whether a playlist for C is the one of a payload.
pub open spec fn is_playlist(payload: PlaylistPayload, record: FfiPlaylist) -> bool {
    &&& record.id@ == escaped(payload.id@)
    &&& record.uri@ == escaped(payload.uri@)
    &&& record.name@ == escaped(payload.name@)
    &&& are_images(payload.images@, record.images@)
    &&& is_owner(payload.owner, record.owner)
    &&& record.tracks@.len() == payload.tracks@.len()
    &&& forall|i: int|
        0 <= i < payload.tracks@.len() ==> is_track(
            payload.tracks@[i].track,
            #[trigger] record.tracks@[i],
        )
}

/// Whether a user for C is the one of a payload.
pub open spec fn is_user_profile(payload: UserProfilePayload, record: FfiUserProfile) -> bool {
    &&& record.id@ == escaped(payload.id@)
    &&& record.uri@ == escaped(payload.uri@)
    &&& record.display_name@ == escaped(payload.display_name@)
    &&& record.email@ == escaped(payload.email@)
    &&& record.country@ == escaped(payload.country@)
    &&& are_images(payload.images@, record.images@)
}

/// Whether a list of playlists for C is the one of a payload.
pub open spec fn is_playlist_list(payload: PlaylistListPayload, record: FfiPlaylistList) -> bool {
    &&& are_playlist_summaries(payload.items@, record.items@)
}

/// Whether a list of tracks for C is the one of a payload.
pub open spec fn is_track_list(payload: TrackListPayload, record: FfiTrackList) -> bool {
    &&& are_tracks(payload.items@, record.items@)
}

/// Whether a list of artists for C is the one of a payload.
pub open spec fn is_artist_list(payload: ArtistListPayload, record: FfiArtistList) -> bool {
    &&& are_artist_summaries(payload.items@, record.items@)
}

/// Whether a result of a search for C is the one of a payload.
pub open spec fn is_search(payload: SearchPayload, record: FfiSearch) -> bool {
    &&& are_tracks(payload.tracks@, record.tracks@)
    &&& are_album_summaries(payload.albums@, record.albums@)
    &&& are_artist_summaries(payload.artists@, record.artists@)
    &&& are_playlist_summaries(payload.playlists@, record.playlists@)
}

/// A picture for C.
pub fn build_ffi_image(payload: ImagePayload) -> (record: FfiImage)
    ensures
        is_image(payload, record),
{
    FfiImage {
        url: ffi_string(payload.url.as_str()),
        width: payload.width,
        height: payload.height,
    }
}

/// Pictures for C.
fn build_ffi_images(payloads: Vec<ImagePayload>) -> (records: Vec<FfiImage>)
    ensures
        are_images(payloads@, records@),
{
    let mut records: Vec<FfiImage> = Vec::new();
    for payload in it: payloads
        invariant
            it.seq() == payloads@,
            records@.len() == it.index(),
            forall|k: int|
                0 <= k < records@.len() ==> is_image(payloads@[k], #[trigger] records@[k]),
    {
        records.push(build_ffi_image(payload));
    }
    records
}

/// An artist in short for C.
pub fn build_ffi_artist_summary(payload: ArtistSummaryPayload) -> (record: FfiArtistSummary)
    ensures
        is_artist_summary(payload, record),
{
    FfiArtistSummary {
        id: ffi_string(payload.id.as_str()),
        uri: ffi_string(payload.uri.as_str()),
        name: ffi_string(payload.name.as_str()),
    }
}

/// Artists for C.
fn build_ffi_artist_summaries(payloads: Vec<ArtistSummaryPayload>) -> (records: Vec<
    FfiArtistSummary,
>)
    ensures
        are_artist_summaries(payloads@, records@),
{
    let mut records: Vec<FfiArtistSummary> = Vec::new();
    for payload in it: payloads
        invariant
            it.seq() == payloads@,
            records@.len() == it.index(),
            forall|k: int|
                0 <= k < records@.len() ==> is_artist_summary(payloads@[k], #[trigger] records@[k]),
    {
        records.push(build_ffi_artist_summary(payload));
    }
    records
}

/// An album in short for C.
pub fn build_ffi_album_summary(payload: AlbumSummaryPayload) -> (record: FfiAlbumSummary)
    ensures
        is_album_summary(payload, record),
{
    FfiAlbumSummary {
        id: ffi_string(payload.id.as_str()),
        uri: ffi_string(payload.uri.as_str()),
        name: ffi_string(payload.name.as_str()),
        album_type: ffi_string(payload.album_type.as_str()),
        release_date: String::new(),
        total_tracks: 0,
        images: build_ffi_images(payload.images),
        artists: build_ffi_artist_summaries(payload.artists),
    }
}

/// Albums for C.
fn build_ffi_album_summaries(payloads: Vec<AlbumSummaryPayload>) -> (records: Vec<FfiAlbumSummary>)
    ensures
        are_album_summaries(payloads@, records@),
{
    let mut records: Vec<FfiAlbumSummary> = Vec::new();
    for payload in it: payloads
        invariant
            it.seq() == payloads@,
            records@.len() == it.index(),
            forall|k: int|
                0 <= k < records@.len() ==> is_album_summary(payloads@[k], #[trigger] records@[k]),
    {
        records.push(build_ffi_album_summary(payload));
    }
    records
}

/// A track of an album for C.
pub fn build_ffi_simple_track(payload: SimpleTrackPayload) -> (record: FfiSimpleTrack)
    ensures
        is_simple_track(payload, record),
{
    FfiSimpleTrack {
        id: ffi_string(payload.id.as_str()),
        uri: ffi_string(payload.uri.as_str()),
        name: ffi_string(payload.name.as_str()),
        duration_ms: payload.duration_ms,
        disc_number: payload.disc_number,
        track_number: payload.track_number,
        artists: build_ffi_artist_summaries(payload.artists),
    }
}

/// Tracks of an album for C.
fn build_ffi_simple_tracks(payloads: Vec<SimpleTrackPayload>) -> (records: Vec<FfiSimpleTrack>)
    ensures
        are_simple_tracks(payloads@, records@),
{
    let mut records: Vec<FfiSimpleTrack> = Vec::new();
    for payload in it: payloads
        invariant
            it.seq() == payloads@,
            records@.len() == it.index(),
            forall|k: int|
                0 <= k < records@.len() ==> is_simple_track(payloads@[k], #[trigger] records@[k]),
    {
        records.push(build_ffi_simple_track(payload));
    }
    records
}

/// A track for C.
pub fn build_ffi_track(payload: TrackPayload) -> (record: FfiTrack)
    ensures
        is_track(payload, record),
{
    FfiTrack {
        id: ffi_string(payload.id.as_str()),
        uri: ffi_string(payload.uri.as_str()),
        name: ffi_string(payload.name.as_str()),
        duration_ms: payload.duration_ms,
        disc_number: payload.disc_number,
        track_number: payload.track_number,
        artists: build_ffi_artist_summaries(payload.artists),
        album: build_ffi_album_summary(payload.album),
    }
}

/// Tracks for C.
fn build_ffi_tracks(payloads: Vec<TrackPayload>) -> (records: Vec<FfiTrack>)
    ensures
        are_tracks(payloads@, records@),
{
    let mut records: Vec<FfiTrack> = Vec::new();
    for payload in it: payloads
        invariant
            it.seq() == payloads@,
            records@.len() == it.index(),
            forall|k: int|
                0 <= k < records@.len() ==> is_track(payloads@[k], #[trigger] records@[k]),
    {
        records.push(build_ffi_track(payload));
    }
    records
}

/// An album for C.
pub fn build_ffi_album(payload: AlbumPayload) -> (record: FfiAlbum)
    ensures
        is_album(payload, record),
{
    FfiAlbum {
        id: ffi_string(payload.id.as_str()),
        uri: ffi_string(payload.uri.as_str()),
        name: ffi_string(payload.name.as_str()),
        album_type: ffi_string(payload.album_type.as_str()),
        release_date: ffi_string(payload.release_date.as_str()),
        total_tracks: payload.total_tracks,
        images: build_ffi_images(payload.images),
        artists: build_ffi_artist_summaries(payload.artists),
        tracks: build_ffi_simple_tracks(payload.tracks),
    }
}

/// An artist for C.
pub fn build_ffi_artist(payload: ArtistPayload) -> (record: FfiArtist)
    ensures
        is_artist(payload, record),
{
    FfiArtist {
        id: ffi_string(payload.id.as_str()),
        uri: ffi_string(payload.uri.as_str()),
        name: ffi_string(payload.name.as_str()),
        images: build_ffi_images(payload.images),
        albums: build_ffi_album_summaries(payload.albums),
    }
}

/// An owner for C.
pub fn build_ffi_owner(payload: OwnerPayload) -> (record: FfiOwner)
    ensures
        is_owner(payload, record),
{
    FfiOwner {
        id: ffi_string(payload.id.as_str()),
        display_name: ffi_string(payload.display_name.as_str()),
    }
}

/// A playlist in short for C.
pub fn build_ffi_playlist_summary(payload: PlaylistSummaryPayload) -> (record: FfiPlaylistSummary)
    ensures
        is_playlist_summary(payload, record),
{
    FfiPlaylistSummary {
        id: ffi_string(payload.id.as_str()),
        uri: ffi_string(payload.uri.as_str()),
        name: ffi_string(payload.name.as_str()),
        images: build_ffi_images(payload.images),
    }
}

/// Playlists for C.
fn build_ffi_playlist_summaries(payloads: Vec<PlaylistSummaryPayload>) -> (records: Vec<
    FfiPlaylistSummary,
>)
    ensures
        are_playlist_summaries(payloads@, records@),
{
    let mut records: Vec<FfiPlaylistSummary> = Vec::new();
    for payload in it: payloads
        invariant
            it.seq() == payloads@,
            records@.len() == it.index(),
            forall|k: int|
                0 <= k < records@.len() ==> is_playlist_summary(
                    payloads@[k],
                    #[trigger] records@[k],
                ),
    {
        records.push(build_ffi_playlist_summary(payload));
    }
    records
}

/// A playlist for C.
pub fn build_ffi_playlist(payload: PlaylistPayload) -> (record: FfiPlaylist)
    ensures
        is_playlist(payload, record),
{
    FfiPlaylist {
        id: ffi_string(payload.id.as_str()),
        uri: ffi_string(payload.uri.as_str()),
        name: ffi_string(payload.name.as_str()),
        images: build_ffi_images(payload.images),
        owner: build_ffi_owner(payload.owner),
        tracks: build_ffi_playlist_tracks(payload.tracks),
    }
}

/// A user for C.
pub fn build_ffi_user_profile(payload: UserProfilePayload) -> (record: FfiUserProfile)
    ensures
        is_user_profile(payload, record),
{
    FfiUserProfile {
        id: ffi_string(payload.id.as_str()),
        uri: ffi_string(payload.uri.as_str()),
        display_name: ffi_string(payload.display_name.as_str()),
        email: ffi_string(payload.email.as_str()),
        country: ffi_string(payload.country.as_str()),
        images: build_ffi_images(payload.images),
    }
}

/// A list of playlists for C.
pub fn build_ffi_playlist_list(payload: PlaylistListPayload) -> (record: FfiPlaylistList)
    ensures
        is_playlist_list(payload, record),
{
    FfiPlaylistList {
        items: build_ffi_playlist_summaries(payload.items),
    }
}

/// A list of tracks for C.
pub fn build_ffi_track_list(payload: TrackListPayload) -> (record: FfiTrackList)
    ensures
        is_track_list(payload, record),
{
    FfiTrackList {
        items: build_ffi_tracks(payload.items),
    }
}

/// A list of artists for C.
pub fn build_ffi_artist_list(payload: ArtistListPayload) -> (record: FfiArtistList)
    ensures
        is_artist_list(payload, record),
{
    FfiArtistList {
        items: build_ffi_artist_summaries(payload.items),
    }
}

/// A result of a search for C.
pub fn build_ffi_search(payload: SearchPayload) -> (record: FfiSearch)
    ensures
        is_search(payload, record),
{
    FfiSearch {
        tracks: build_ffi_tracks(payload.tracks),
        albums: build_ffi_album_summaries(payload.albums),
        artists: build_ffi_artist_summaries(payload.artists),
        playlists: build_ffi_playlist_summaries(payload.playlists),
    }
}

/// The tracks of a playlist for C.
fn build_ffi_playlist_tracks(payloads: Vec<PlaylistTrackPayload>) -> (records: Vec<FfiTrack>)
    ensures
        records@.len() == payloads@.len(),
        forall|i: int|
            0 <= i < payloads@.len() ==> is_track(payloads@[i].track, #[trigger] records@[i]),
{
    let mut records: Vec<FfiTrack> = Vec::new();
    for payload in it: payloads
        invariant
            it.seq() == payloads@,
            records@.len() == it.index(),
            forall|k: int|
                0 <= k < records@.len() ==> is_track(payloads@[k].track, #[trigger] records@[k]),
    {
        records.push(build_ffi_track(payload.track));
    }
    records
}

/// Records show what they are of, field by field. A text without NUL is shown as
/// it is, and lists are shown one for one and in their order.
pub proof fn law_an_album_in_short_is_shown(payload: AlbumSummaryPayload, record: FfiAlbumSummary)
    requires
        is_album_summary(payload, record),
    ensures
        !payload.id@.contains('\0') ==> record.id@ == payload.id@,
        !payload.uri@.contains('\0') ==> record.uri@ == payload.uri@,
        !payload.name@.contains('\0') ==> record.name@ == payload.name@,
        !payload.album_type@.contains('\0') ==> record.album_type@ == payload.album_type@,
        record.release_date@.len() == 0,
        record.total_tracks == 0,
        record.images@.len() == payload.images@.len(),
        record.artists@.len() == payload.artists@.len(),
        forall|i: int|
            0 <= i < payload.images@.len() ==> (#[trigger] record.images@[i]).width
                == payload.images@[i].width && record.images@[i].height == payload.images@[i].height
                && (!payload.images@[i].url@.contains('\0') ==> record.images@[i].url@
                == payload.images@[i].url@),
        forall|i: int|
            0 <= i < payload.artists@.len() ==> {
                &&& !payload.artists@[i].id@.contains('\0') ==> (
                #[trigger] record.artists@[i]).id@ == payload.artists@[i].id@
                &&& !payload.artists@[i].uri@.contains('\0') ==> record.artists@[i].uri@
                    == payload.artists@[i].uri@
                &&& !payload.artists@[i].name@.contains('\0') ==> record.artists@[i].name@
                    == payload.artists@[i].name@
            },
{
    lemma_shown(payload.id@);
    lemma_shown(payload.uri@);
    lemma_shown(payload.name@);
    lemma_shown(payload.album_type@);
    assert forall|i: int| 0 <= i < payload.images@.len() implies (
    #[trigger] record.images@[i]).width == payload.images@[i].width && record.images@[i].height
        == payload.images@[i].height && (!payload.images@[i].url@.contains('\0')
        ==> record.images@[i].url@ == payload.images@[i].url@) by {
        assert(is_image(payload.images@[i], record.images@[i]));
        lemma_shown(payload.images@[i].url@);
    }
    assert forall|i: int| 0 <= i < payload.artists@.len() implies {
        &&& !payload.artists@[i].id@.contains('\0') ==> (#[trigger] record.artists@[i]).id@
            == payload.artists@[i].id@
        &&& !payload.artists@[i].uri@.contains('\0') ==> record.artists@[i].uri@
            == payload.artists@[i].uri@
        &&& !payload.artists@[i].name@.contains('\0') ==> record.artists@[i].name@
            == payload.artists@[i].name@
    } by {
        assert(is_artist_summary(payload.artists@[i], record.artists@[i]));
        lemma_shown(payload.artists@[i].id@);
        lemma_shown(payload.artists@[i].uri@);
        lemma_shown(payload.artists@[i].name@);
    }
}

proof fn lemma_shown(content: Seq<char>)
    ensures
        !content.contains('\0') ==> escaped(content) == content,
{
    if !content.contains('\0') {
        law_plain_texts_are_kept(content);
    }
}

/// A track is shown with its own texts, its length and its place, its artists and
/// its album, and on an album alike.
pub proof fn law_a_track_is_shown(
    payload: TrackPayload,
    record: FfiTrack,
    simple: SimpleTrackPayload,
    short: FfiSimpleTrack,
)
    requires
        is_track(payload, record),
        is_simple_track(simple, short),
    ensures
        !payload.id@.contains('\0') ==> record.id@ == payload.id@,
        !payload.uri@.contains('\0') ==> record.uri@ == payload.uri@,
        !payload.name@.contains('\0') ==> record.name@ == payload.name@,
        record.duration_ms == payload.duration_ms,
        record.disc_number == payload.disc_number,
        record.track_number == payload.track_number,
        are_artist_summaries(payload.artists@, record.artists@),
        is_album_summary(payload.album, record.album),
        !simple.id@.contains('\0') ==> short.id@ == simple.id@,
        !simple.uri@.contains('\0') ==> short.uri@ == simple.uri@,
        !simple.name@.contains('\0') ==> short.name@ == simple.name@,
        short.duration_ms == simple.duration_ms,
        short.disc_number == simple.disc_number,
        short.track_number == simple.track_number,
        are_artist_summaries(simple.artists@, short.artists@),
{
    lemma_shown(payload.id@);
    lemma_shown(payload.uri@);
    lemma_shown(payload.name@);
    lemma_shown(simple.id@);
    lemma_shown(simple.uri@);
    lemma_shown(simple.name@);
}

/// An album, an artist and a user are shown with their own texts and numbers.
pub proof fn law_albums_artists_and_users_are_shown(
    album: AlbumPayload,
    album_record: FfiAlbum,
    artist: ArtistPayload,
    artist_record: FfiArtist,
    user: UserProfilePayload,
    user_record: FfiUserProfile,
)
    requires
        is_album(album, album_record),
        is_artist(artist, artist_record),
        is_user_profile(user, user_record),
    ensures
        !album.id@.contains('\0') ==> album_record.id@ == album.id@,
        !album.uri@.contains('\0') ==> album_record.uri@ == album.uri@,
        !album.name@.contains('\0') ==> album_record.name@ == album.name@,
        !album.album_type@.contains('\0') ==> album_record.album_type@ == album.album_type@,
        !album.release_date@.contains('\0') ==> album_record.release_date@ == album.release_date@,
        album_record.total_tracks == album.total_tracks,
        album_record.tracks@.len() == album.tracks@.len(),
        album_record.images@.len() == album.images@.len(),
        album_record.artists@.len() == album.artists@.len(),
        !artist.id@.contains('\0') ==> artist_record.id@ == artist.id@,
        !artist.uri@.contains('\0') ==> artist_record.uri@ == artist.uri@,
        !artist.name@.contains('\0') ==> artist_record.name@ == artist.name@,
        artist_record.images@.len() == artist.images@.len(),
        artist_record.albums@.len() == artist.albums@.len(),
        !user.id@.contains('\0') ==> user_record.id@ == user.id@,
        !user.uri@.contains('\0') ==> user_record.uri@ == user.uri@,
        !user.display_name@.contains('\0') ==> user_record.display_name@ == user.display_name@,
        !user.email@.contains('\0') ==> user_record.email@ == user.email@,
        !user.country@.contains('\0') ==> user_record.country@ == user.country@,
        user_record.images@.len() == user.images@.len(),
{
    lemma_shown(album.id@);
    lemma_shown(album.uri@);
    lemma_shown(album.name@);
    lemma_shown(album.album_type@);
    lemma_shown(album.release_date@);
    lemma_shown(artist.id@);
    lemma_shown(artist.uri@);
    lemma_shown(artist.name@);
    lemma_shown(user.id@);
    lemma_shown(user.uri@);
    lemma_shown(user.display_name@);
    lemma_shown(user.email@);
    lemma_shown(user.country@);
}

/// A playlist is shown with its own texts, its owner and its tracks, and what a
/// search found with all that it found.
pub proof fn law_playlists_and_searches_are_shown(
    playlist: PlaylistPayload,
    playlist_record: FfiPlaylist,
    summary: PlaylistSummaryPayload,
    summary_record: FfiPlaylistSummary,
    search: SearchPayload,
    search_record: FfiSearch,
)
    requires
        is_playlist(playlist, playlist_record),
        is_playlist_summary(summary, summary_record),
        is_search(search, search_record),
    ensures
        !playlist.id@.contains('\0') ==> playlist_record.id@ == playlist.id@,
        !playlist.uri@.contains('\0') ==> playlist_record.uri@ == playlist.uri@,
        !playlist.name@.contains('\0') ==> playlist_record.name@ == playlist.name@,
        playlist_record.images@.len() == playlist.images@.len(),
        !playlist.owner.id@.contains('\0') ==> playlist_record.owner.id@ == playlist.owner.id@,
        !playlist.owner.display_name@.contains('\0') ==> playlist_record.owner.display_name@
            == playlist.owner.display_name@,
        playlist_record.tracks@.len() == playlist.tracks@.len(),
        forall|i: int|
            0 <= i < playlist.tracks@.len() ==> is_track(
                playlist.tracks@[i].track,
                #[trigger] playlist_record.tracks@[i],
            ),
        !summary.id@.contains('\0') ==> summary_record.id@ == summary.id@,
        !summary.uri@.contains('\0') ==> summary_record.uri@ == summary.uri@,
        !summary.name@.contains('\0') ==> summary_record.name@ == summary.name@,
        summary_record.images@.len() == summary.images@.len(),
        search_record.tracks@.len() == search.tracks@.len(),
        search_record.albums@.len() == search.albums@.len(),
        search_record.artists@.len() == search.artists@.len(),
        search_record.playlists@.len() == search.playlists@.len(),
        forall|i: int|
            0 <= i < search.tracks@.len() ==> is_track(
                search.tracks@[i],
                #[trigger] search_record.tracks@[i],
            ),
        forall|i: int|
            0 <= i < search.albums@.len() ==> is_album_summary(
                search.albums@[i],
                #[trigger] search_record.albums@[i],
            ),
{
    lemma_shown(playlist.id@);
    lemma_shown(playlist.uri@);
    lemma_shown(playlist.name@);
    lemma_shown(playlist.owner.id@);
    lemma_shown(playlist.owner.display_name@);
    lemma_shown(summary.id@);
    lemma_shown(summary.uri@);
    lemma_shown(summary.name@);
}

/// A NUL is shown as a backslash and a nought.
pub proof fn law_a_nul_is_shown_in_two_characters(a: Seq<char>, b: Seq<char>)
    ensures
        escaped(a + seq!['\0'] + b) == escaped(a) + seq!['\\', '0'] + escaped(b),
{
    reveal_strlit("\0");
    reveal_strlit("\\0");
    assert("\0"@ =~= seq!['\0']);
    assert("\\0"@ =~= seq!['\\', '0']);
    text::law_replacing_a_character(a, seq!['\0'], '\0', "\\0"@);
    text::law_replacing_a_character(a + seq!['\0'], b, '\0', "\\0"@);
}

} // verus!
