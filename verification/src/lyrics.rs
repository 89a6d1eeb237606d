//! Lyrics: where they are stored, and in which order stored ones are looked for.
use crate::cache_path::CachePath;
use crate::encoding;
use crate::offline::OfflineIndex;
use crate::text;
use vstd::prelude::*;

verus! {

/// A line of lyrics.
#[derive(Debug)]
pub struct LyricsLinePayload {
    pub start_time_ms: String,
    pub end_time_ms: String,
    pub words: String,
}

/// The colours that lyrics are shown in.
#[derive(Debug, Clone, Copy, PartialEq, Eq, Structural)]
pub struct LyricsColorsPayload {
    pub background: i32,
    pub text: i32,
    pub highlight_text: i32,
}

/// Lyrics.
#[derive(Debug)]
pub struct LyricsPayload {
    pub provider: String,
    pub provider_display_name: String,
    pub language: String,
    pub sync_type: String,
    pub has_vocal_removal: bool,
    pub is_dense_typeface: bool,
    pub is_rtl_language: bool,
    pub sync_lyrics_uri: String,
    pub lines: Vec<LyricsLinePayload>,
    pub colors: LyricsColorsPayload,
}

/// The name under which the lyrics of a track are stored.
pub open spec fn lyrics_name(track_uri: Seq<char>) -> Seq<char> {
    encoding::lower_hex(encoding::sha1_digest(vstd::utf8::encode_utf8(track_uri)))
        + ".lyrics.json"@
}

/// The name under which lyrics are stored is the name of a file.
proof fn lemma_lyrics_name(track_uri: Seq<char>, digest: Seq<char>)
    requires
        digest == encoding::lower_hex(
            encoding::sha1_digest(vstd::utf8::encode_utf8(track_uri)),
        ),
        digest.len() == 40,
    ensures
        crate::path_reading::is_name(lyrics_name(track_uri)),
{
    reveal_strlit(".lyrics.json");
    let name = lyrics_name(track_uri);
    assert forall|k: int| 0 <= k < name.len() implies #[trigger] name[k] != '/' && name[k] != '\\'
        && name[k] != ':' by {
        if k < 40 {
            assert(name[k] == digest[k]);
        } else {
            assert(name[k] == ".lyrics.json"@[k - 40]);
        }
    }
    crate::path_reading::lemma_long_name(name);
}

/// The directories for lyrics.
#[derive(Debug)]
pub struct LyricsDirectories {
    pub volatile: CachePath,
    pub persisted: CachePath,
}

impl LyricsDirectories {
    /// The directory for lyrics of tracks that are kept, or of others.
    pub open spec fn root(self, persisted: bool) -> CachePath {
        if persisted {
            self.persisted
        } else {
            self.volatile
        }
    }

    /// Whether the directories are what their texts say.
    pub open spec fn wf(self) -> bool {
        self.volatile.wf() && self.persisted.wf()
    }

    /// Whether a path is the one at which lyrics are stored.
    pub open spec fn is_path(self, track_uri: Seq<char>, persisted: bool, path: CachePath) -> bool {
        let root = self.root(persisted);
        &&& path.wf()
        &&& path.keys() == root.joined_keys(lyrics_name(track_uri))
        &&& path.text@ == root.joined_text(lyrics_name(track_uri))
    }

    /// The directories inside the cache and inside where files are kept.
    pub fn new(cache_dir: &CachePath, persisted_cache_dir: &CachePath) -> (this: LyricsDirectories)
        requires
            cache_dir.wf(),
            persisted_cache_dir.wf(),
        ensures
            this.wf(),
            this.volatile.keys() == cache_dir.joined_keys("lyrics"@),
            this.volatile.text@ == cache_dir.joined_text("lyrics"@),
            this.persisted.keys() == persisted_cache_dir.joined_keys("lyrics"@),
            this.persisted.text@ == persisted_cache_dir.joined_text("lyrics"@),
    {
        proof {
            reveal_strlit("lyrics");
            crate::path_reading::lemma_long_name("lyrics"@);
        }
        LyricsDirectories {
            volatile: cache_dir.join("lyrics"),
            persisted: persisted_cache_dir.join("lyrics"),
        }
    }

    /// Where the lyrics of a track are stored.
    pub fn lyrics_path_for(&self, track_uri: &str, persisted: bool) -> (path: CachePath)
        requires
            self.wf(),
        ensures
            self.is_path(track_uri@, persisted, path),
    {
        let digest = encoding::sha1_hex(track_uri.as_bytes());
        let name = text::concat(digest.as_str(), ".lyrics.json");
        proof {
            lemma_lyrics_name(track_uri@, digest@);
        }
        if persisted {
            self.persisted.join(name.as_str())
        } else {
            self.volatile.join(name.as_str())
        }
    }

    /// Where stored lyrics are looked for: first among those of tracks that are
    /// kept if the track is, and else among the others.
    pub fn lookup_paths(&self, index: &OfflineIndex, track_uri: &str) -> (paths: (
        CachePath,
        CachePath,
    ))
        requires
            self.wf(),
            index.wf(),
        ensures
            self.is_path(track_uri@, index.says(track_uri@) is Some, paths.0),
            self.is_path(track_uri@, index.says(track_uri@) is None, paths.1),
    {
        let preferred = index.contains(track_uri);
        (self.lyrics_path_for(track_uri, preferred), self.lyrics_path_for(track_uri, !preferred))
    }

    /// Where lyrics are written to, and where older ones are deleted.
    pub fn write_paths(&self, index: &OfflineIndex, track_uri: &str) -> (paths: (
        CachePath,
        CachePath,
    ))
        requires
            self.wf(),
            index.wf(),
        ensures
            self.is_path(track_uri@, index.says(track_uri@) is Some, paths.0),
            self.is_path(track_uri@, index.says(track_uri@) is None, paths.1),
    {
        self.lookup_paths(index, track_uri)
    }

    /// From where to where lyrics are moved once their track is kept, or is
    /// given up.
    pub fn move_paths(&self, track_uri: &str, persisted: bool) -> (paths: (CachePath, CachePath))
        requires
            self.wf(),
        ensures
            self.is_path(track_uri@, !persisted, paths.0),
            self.is_path(track_uri@, persisted, paths.1),
    {
        (self.lyrics_path_for(track_uri, !persisted), self.lyrics_path_for(track_uri, persisted))
    }
}

/// What came of reading a file of lyrics. `E` is the type of errors.
#[derive(Debug)]
pub enum LyricsRead<E> {
    Found(LyricsPayload),
    Missing,
    /// The file could not be read, or holds no lyrics.
    Failed(E),
}

/// What stored lyrics come to.
pub open spec fn found_lyrics<E>(first: LyricsRead<E>, second: LyricsRead<E>) -> Result<
    Option<LyricsPayload>,
    E,
> {
    match first {
        LyricsRead::Found(lyrics) => Ok(Some(lyrics)),
        LyricsRead::Failed(error) => Err(error),
        LyricsRead::Missing => match second {
            LyricsRead::Found(lyrics) => Ok(Some(lyrics)),
            LyricsRead::Failed(error) => Err(error),
            LyricsRead::Missing => Ok(None),
        },
    }
}

/// What stored lyrics come to: those at the first path, if there is a file, and
/// else those at the second. A file that cannot be read is an error, even where
/// there is another.
pub fn cached_lyrics<E>(first: LyricsRead<E>, second: LyricsRead<E>) -> (result: Result<
    Option<LyricsPayload>,
    E,
>)
    ensures
        result == found_lyrics(first, second),
{
    match first {
        LyricsRead::Found(lyrics) => Ok(Some(lyrics)),
        LyricsRead::Failed(error) => Err(error),
        LyricsRead::Missing => match second {
            LyricsRead::Found(lyrics) => Ok(Some(lyrics)),
            LyricsRead::Failed(error) => Err(error),
            LyricsRead::Missing => Ok(None),
        },
    }
}

/// Whether two paths are one, written in the same way.
pub open spec fn is_same_place(a: CachePath, b: CachePath) -> bool {
    a.keys() == b.keys() && a.text@ == b.text@
}

/// The lyrics that stand at paths.
pub type StoredLyrics = Map<Seq<crate::path_reading::PartKey>, LyricsPayload>;

/// What stands at paths once lyrics were written: they stand at the first of the
/// paths that `write_paths` gives, and nothing stands at the second.
pub open spec fn stored_after_write(
    stored: StoredLyrics,
    target: CachePath,
    alternate: CachePath,
    lyrics: LyricsPayload,
) -> StoredLyrics {
    stored.insert(target.keys(), lyrics).remove(alternate.keys())
}

/// What reading a path comes to where every file can be read.
pub open spec fn read_at<E>(stored: StoredLyrics, path: CachePath) -> LyricsRead<E> {
    if stored.contains_key(path.keys()) {
        LyricsRead::Found(stored[path.keys()])
    } else {
        LyricsRead::Missing
    }
}

/// Whether lyrics of tracks that are kept and of others stand at different paths.
pub open spec fn are_apart(directories: LyricsDirectories, track_uri: Seq<char>) -> bool {
    directories.volatile.joined_keys(lyrics_name(track_uri))
        != directories.persisted.joined_keys(lyrics_name(track_uri))
}

/// Lyrics that are written are found again, whatever stood at either path before,
/// and whatever the index said of the track when they were written and says when
/// they are read.
pub proof fn law_written_lyrics_are_found<E>(
    directories: LyricsDirectories,
    at_writing: OfflineIndex,
    at_reading: OfflineIndex,
    track_uri: Seq<char>,
    stored: StoredLyrics,
    lyrics: LyricsPayload,
    written: (CachePath, CachePath),
    looked_at: (CachePath, CachePath),
)
    requires
        are_apart(directories, track_uri),
        directories.is_path(track_uri, at_writing.says(track_uri) is Some, written.0),
        directories.is_path(track_uri, at_writing.says(track_uri) is None, written.1),
        directories.is_path(track_uri, at_reading.says(track_uri) is Some, looked_at.0),
        directories.is_path(track_uri, at_reading.says(track_uri) is None, looked_at.1),
    ensures
        ({
            let after = stored_after_write(stored, written.0, written.1, lyrics);
            found_lyrics(read_at::<E>(after, looked_at.0), read_at::<E>(after, looked_at.1))
                == Ok::<Option<LyricsPayload>, E>(Some(lyrics))
        }),
        (at_writing.says(track_uri) is Some) == (at_reading.says(track_uri) is Some)
            ==> is_same_place(written.0, looked_at.0),
{
}

/// Writing the lyrics of a track leaves those of other tracks alone, whose names
/// differ: what is found of them is what was found before.
pub proof fn law_other_lyrics_are_left_alone<E>(
    directories: LyricsDirectories,
    track_uri: Seq<char>,
    other_uri: Seq<char>,
    persisted: bool,
    stored: StoredLyrics,
    lyrics: LyricsPayload,
    written: (CachePath, CachePath),
    other: CachePath,
    other_persisted: bool,
)
    requires
        lyrics_name(track_uri) != lyrics_name(other_uri),
        directories.is_path(track_uri, persisted, written.0),
        directories.is_path(track_uri, !persisted, written.1),
        directories.is_path(other_uri, other_persisted, other),
    ensures
        read_at::<E>(stored_after_write(stored, written.0, written.1, lyrics), other)
            == read_at::<E>(stored, other),
{
    assert(written.0.keys().last() == (4int, lyrics_name(track_uri)));
    assert(written.1.keys().last() == (4int, lyrics_name(track_uri)));
    assert(other.keys().last() == (4int, lyrics_name(other_uri)));
}

/// Lyrics are stored under the digest of the address of their track, so that a
/// name can be told apart from others and is known for what it is by its end.
pub proof fn law_lyrics_are_named_by_their_track(track_uri: Seq<char>, other_uri: Seq<char>)
    ensures
        ({
            let name = lyrics_name(track_uri);
            let digest = encoding::sha1_digest(vstd::utf8::encode_utf8(track_uri));
            let other = encoding::sha1_digest(vstd::utf8::encode_utf8(other_uri));
            &&& name.len() == 2 * digest.len() + 12
            &&& name.skip(2 * digest.len() as int) == ".lyrics.json"@
            &&& encoding::hex_bytes(name.take(2 * digest.len() as int)) == digest
            &&& lyrics_name(other_uri) == name ==> other == digest
        }),
{
    reveal_strlit(".lyrics.json");
    let name = lyrics_name(track_uri);
    let digest = encoding::sha1_digest(vstd::utf8::encode_utf8(track_uri));
    let other = encoding::sha1_digest(vstd::utf8::encode_utf8(other_uri));
    encoding::law_hex_round_trip(digest);
    encoding::law_hex_round_trip(other);
    assert(name.skip(2 * digest.len() as int) =~= ".lyrics.json"@);
    assert(name.take(2 * digest.len() as int) =~= encoding::lower_hex(digest));
    assert(lyrics_name(other_uri).take(2 * other.len() as int) =~= encoding::lower_hex(other));
}

/// Lyrics of tracks that are kept are stored where kept things are, and those of
/// others where they may be given up.
pub proof fn law_lyrics_lie_with_their_track(
    directories: LyricsDirectories,
    track_uri: Seq<char>,
    persisted: bool,
    path: CachePath,
)
    requires
        directories.is_path(track_uri, persisted, path),
    ensures
        persisted ==> path.keys() == directories.persisted.joined_keys(lyrics_name(track_uri))
            && path.text@ == directories.persisted.joined_text(lyrics_name(track_uri)),
        !persisted ==> path.keys() == directories.volatile.joined_keys(lyrics_name(track_uri))
            && path.text@ == directories.volatile.joined_text(lyrics_name(track_uri)),
{
}

/// The first file that there is decides what stored lyrics come to: it is taken
/// if it can be read and its error is reported if it cannot. There are none
/// exactly where neither file is there.
pub proof fn law_the_first_file_decides<E>(first: LyricsRead<E>, second: LyricsRead<E>)
    ensures
        ({
            let result = found_lyrics(first, second);
            let deciding = if first is Missing {
                second
            } else {
                first
            };
            &&& result == Ok::<Option<LyricsPayload>, E>(None) <==> first is Missing
                && second is Missing
            &&& deciding matches LyricsRead::Found(lyrics) ==> result == Ok::<
                Option<LyricsPayload>,
                E,
            >(Some(lyrics))
            &&& deciding matches LyricsRead::Failed(error) ==> result == Err::<
                Option<LyricsPayload>,
                E,
            >(error)
        }),
{
}

} // verus!
