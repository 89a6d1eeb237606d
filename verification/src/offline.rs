//! Tracks that are kept for playing without a connection: the index of what is
//! kept, and the way in which a track comes to be kept.
use crate::encoding;
use crate::errors::ErrorKind;
use crate::events::{AudioItem, UniqueFields};
use crate::ffi_types::Bitrate;
use crate::ids::{parse_file_id_hex, FileId};
use crate::text;
use vstd::prelude::*;

verus! {

/// What the index says of a track that is kept.
#[derive(Debug)]
pub struct OfflineTrackIndexEntry {
    pub track_uri: String,
    pub file_id_hex: String,
    pub format: i32,
    pub name: String,
    pub artist: String,
    pub album: String,
    pub cover_url: String,
    pub duration_ms: u32,
    pub is_explicit: bool,
}

/// What the index says of a track, with texts as sequences of characters.
#[verifier::ext_equal]
pub struct EntryView {
    pub track_uri: Seq<char>,
    pub file_id_hex: Seq<char>,
    pub format: i32,
    pub name: Seq<char>,
    pub artist: Seq<char>,
    pub album: Seq<char>,
    pub cover_url: Seq<char>,
    pub duration_ms: u32,
    pub is_explicit: bool,
}

impl OfflineTrackIndexEntry {
    /// The texts as sequences of characters.
    pub open spec fn view(self) -> EntryView {
        EntryView {
            track_uri: self.track_uri@,
            file_id_hex: self.file_id_hex@,
            format: self.format,
            name: self.name@,
            artist: self.artist@,
            album: self.album@,
            cover_url: self.cover_url@,
            duration_ms: self.duration_ms,
            is_explicit: self.is_explicit,
        }
    }
}

/// What the last entry of a list about a track says; nothing if there is none.
pub open spec fn lookup(entries: Seq<OfflineTrackIndexEntry>, track_uri: Seq<char>) -> Option<
    EntryView,
>
    decreases entries.len(),
{
    if entries.len() == 0 {
        None
    } else if entries.last().track_uri@ == track_uri {
        Some(entries.last().view())
    } else {
        lookup(entries.drop_last(), track_uri)
    }
}

/// The tracks that are kept, each once.
#[derive(Debug)]
pub struct OfflineIndex {
    pub entries: Vec<OfflineTrackIndexEntry>,
}

/// The only entry about a track is the one that is found.
proof fn lemma_lookup_at(entries: Seq<OfflineTrackIndexEntry>, at: int)
    requires
        0 <= at < entries.len(),
        forall|i: int, j: int|
            0 <= i < j < entries.len() ==> #[trigger] entries[i].track_uri@
                != #[trigger] entries[j].track_uri@,
    ensures
        lookup(entries, entries[at].track_uri@) == Some(entries[at].view()),
    decreases entries.len(),
{
    if at < entries.len() - 1 {
        assert(entries[at].track_uri@ != entries[entries.len() - 1].track_uri@);
        lemma_lookup_at(entries.drop_last(), at);
    }
}

/// Nothing is found of a track about which there is no entry, and what is found
/// is an entry.
proof fn lemma_lookup_found(entries: Seq<OfflineTrackIndexEntry>, track_uri: Seq<char>) -> (at: int)
    ensures
        lookup(entries, track_uri) is Some ==> 0 <= at < entries.len() && entries[at].track_uri@
            == track_uri && lookup(entries, track_uri) == Some(entries[at].view()),
        lookup(entries, track_uri) is None ==> forall|i: int|
            0 <= i < entries.len() ==> #[trigger] entries[i].track_uri@ != track_uri,
    decreases entries.len(),
{
    if entries.len() == 0 {
        0
    } else if entries.last().track_uri@ == track_uri {
        entries.len() - 1
    } else {
        let at = lemma_lookup_found(entries.drop_last(), track_uri);
        if lookup(entries, track_uri) is None {
            assert forall|i: int| 0 <= i < entries.len() implies #[trigger] entries[i].track_uri@
                != track_uri by {
                if i < entries.len() - 1 {
                    assert(entries.drop_last()[i].track_uri@ != track_uri);
                }
            }
        }
        at
    }
}

impl OfflineIndex {
    /// Whether no two entries are about the same track.
    pub open spec fn wf(self) -> bool {
        forall|i: int, j: int|
            0 <= i < j < self.entries@.len() ==> #[trigger] self.entries@[i].track_uri@
                != #[trigger] self.entries@[j].track_uri@
    }

    /// What the index says of a track.
    pub open spec fn says(self, track_uri: Seq<char>) -> Option<EntryView> {
        lookup(self.entries@, track_uri)
    }

    /// An index of nothing.
    pub fn new() -> (index: OfflineIndex)
        ensures
            index.wf(),
            index.entries@.len() == 0,
    {
        OfflineIndex { entries: Vec::new() }
    }

    /// The index that a list of entries makes: of two entries about a track the
    /// later one counts.
    pub fn from_entries(entries: Vec<OfflineTrackIndexEntry>) -> (index: OfflineIndex)
        ensures
            index.wf(),
            forall|uri: Seq<char>| #[trigger] index.says(uri) == lookup(entries@, uri),
    {
        let mut index = OfflineIndex::new();
        let ghost given = entries@;
        assert forall|uri: Seq<char>| #[trigger] index.says(uri) == lookup(given.take(0), uri) by {
            assert(given.take(0).len() == 0);
        }
        for entry in it: entries
            invariant
                it.seq() == given,
                index.wf(),
                forall|uri: Seq<char>| #[trigger]
                    index.says(uri) == lookup(given.take(it.index() as int), uri),
        {
            let ghost before = index;
            let ghost done = it.index() as int;
            index.insert(entry);
            assert forall|uri: Seq<char>| #[trigger] index.says(uri) == lookup(
                given.take(done + 1),
                uri,
            ) by {
                assert(given.take(done + 1).drop_last() =~= given.take(done));
                assert(before.says(uri) == lookup(given.take(done), uri));
            }
        }
        assert(given.take(given.len() as int) =~= given);
        index
    }

    /// Where the entry about a track is.
    fn position(&self, track_uri: &str) -> (at: Option<usize>)
        requires
            self.wf(),
        ensures
            at is Some <==> self.says(track_uri@) is Some,
            at matches Some(i) ==> i < self.entries@.len() && self.entries@[i as int].track_uri@
                == track_uri@ && self.says(track_uri@) == Some(self.entries@[i as int].view()),
    {
        let mut i: usize = 0;
        while i < self.entries.len()
            invariant
                self.wf(),
                i <= self.entries@.len(),
                forall|k: int| 0 <= k < i ==> #[trigger] self.entries@[k].track_uri@ != track_uri@,
            decreases self.entries@.len() - i,
        {
            if text::same_text(self.entries[i].track_uri.as_str(), track_uri) {
                proof {
                    lemma_lookup_at(self.entries@, i as int);
                }
                return Some(i);
            }
            i = i + 1;
        }
        proof {
            let at = lemma_lookup_found(self.entries@, track_uri@);
        }
        None
    }

    /// What the index says of a track.
    pub fn get(&self, track_uri: &str) -> (entry: Option<&OfflineTrackIndexEntry>)
        requires
            self.wf(),
        ensures
            entry is Some <==> self.says(track_uri@) is Some,
            entry matches Some(e) ==> self.says(track_uri@) == Some(e.view()),
    {
        match self.position(track_uri) {
            Some(at) => Some(&self.entries[at]),
            None => None,
        }
    }

    /// Whether a track is kept.
    pub fn contains(&self, track_uri: &str) -> (kept: bool)
        requires
            self.wf(),
        ensures
            kept == (self.says(track_uri@) is Some),
    {
        self.position(track_uri).is_some()
    }

    /// Adds an entry, in place of one about the same track.
    pub fn insert(&mut self, entry: OfflineTrackIndexEntry)
        requires
            old(self).wf(),
        ensures
            final(self).wf(),
            forall|uri: Seq<char>| #[trigger]
                final(self).says(uri) == if uri == entry.track_uri@ {
                    Some(entry.view())
                } else {
                    old(self).says(uri)
                },
    {
        let ghost before = self.entries@;
        let ghost key = entry.track_uri@;
        let ghost value = entry.view();
        match self.position(entry.track_uri.as_str()) {
            Some(at) => {
                self.entries.set(at, entry);
                let ghost after = self.entries@;
                proof {
                    assert forall|uri: Seq<char>| #[trigger] lookup(after, uri) == if uri == key {
                        Some(value)
                    } else {
                        lookup(before, uri)
                    } by {
                        if uri == key {
                            lemma_lookup_at(after, at as int);
                        } else {
                            let k = lemma_lookup_found(before, uri);
                            let m = lemma_lookup_found(after, uri);
                            if lookup(before, uri) is Some {
                                assert(after[k].track_uri@ == uri);
                                lemma_lookup_at(after, k);
                            } else if lookup(after, uri) is Some {
                                assert(before[m].track_uri@ == uri);
                            }
                        }
                    }
                }
            },
            None => {
                proof {
                    let at = lemma_lookup_found(before, key);
                }
                self.entries.push(entry);
                assert(self.entries@.drop_last() =~= before);
            },
        }
    }

    /// Takes a track off the index.
    pub fn remove(&mut self, track_uri: &str)
        requires
            old(self).wf(),
        ensures
            final(self).wf(),
            forall|uri: Seq<char>| #[trigger]
                final(self).says(uri) == if uri == track_uri@ {
                    None
                } else {
                    old(self).says(uri)
                },
    {
        let ghost before = self.entries@;
        if let Some(at) = self.position(track_uri) {
            self.entries.remove(at);
            let ghost after = self.entries@;
            proof {
                assert(after =~= before.remove(at as int));
                assert forall|i: int, j: int|
                    0 <= i < j < after.len() implies (#[trigger] after[i]).track_uri@
                    != (#[trigger] after[j]).track_uri@ by {
                    let x = if i < at {
                        i
                    } else {
                        i + 1
                    };
                    let y = if j < at {
                        j
                    } else {
                        j + 1
                    };
                    assert(before[x].track_uri@ != before[y].track_uri@);
                }
                assert forall|uri: Seq<char>| #[trigger] lookup(after, uri) == if uri
                    == track_uri@ {
                    None
                } else {
                    lookup(before, uri)
                } by {
                    let k = lemma_lookup_found(before, uri);
                    let m = lemma_lookup_found(after, uri);
                    if lookup(after, uri) is Some {
                        let x = if m < at {
                            m
                        } else {
                            m + 1
                        };
                        assert(before[x] == after[m]);
                        lemma_lookup_at(before, x);
                        if uri == track_uri@ {
                            if x < at {
                                assert(before[x].track_uri@ != before[at as int].track_uri@);
                            } else {
                                assert(before[at as int].track_uri@ != before[x].track_uri@);
                            }
                        }
                    } else if lookup(before, uri) is Some && uri != track_uri@ {
                        let x = if k < at {
                            k
                        } else {
                            k - 1
                        };
                        assert(after[x] == before[k]);
                    }
                }
            }
        }
    }
}

/// The formats of audio files that a track may be kept in.
#[derive(Debug, Clone, Copy, PartialEq, Eq, Structural)]
pub enum AudioFileFormat {
    OggVorbis96,
    OggVorbis160,
    OggVorbis320,
    Mp3At96,
    Mp3At160,
    Mp3At256,
    Mp3At320,
}

/// The formats in the order in which they are preferred at a bitrate.
pub open spec fn preference(bitrate: Bitrate) -> Seq<AudioFileFormat> {
    match bitrate {
        Bitrate::B96 => seq![
            AudioFileFormat::OggVorbis96,
            AudioFileFormat::Mp3At96,
            AudioFileFormat::OggVorbis160,
            AudioFileFormat::Mp3At160,
            AudioFileFormat::Mp3At256,
            AudioFileFormat::OggVorbis320,
            AudioFileFormat::Mp3At320,
        ],
        Bitrate::B160 => seq![
            AudioFileFormat::OggVorbis160,
            AudioFileFormat::Mp3At160,
            AudioFileFormat::OggVorbis96,
            AudioFileFormat::Mp3At96,
            AudioFileFormat::Mp3At256,
            AudioFileFormat::OggVorbis320,
            AudioFileFormat::Mp3At320,
        ],
        Bitrate::B320 => seq![
            AudioFileFormat::OggVorbis320,
            AudioFileFormat::Mp3At320,
            AudioFileFormat::Mp3At256,
            AudioFileFormat::OggVorbis160,
            AudioFileFormat::Mp3At160,
            AudioFileFormat::OggVorbis96,
            AudioFileFormat::Mp3At96,
        ],
    }
}

/// The formats in the order in which they are preferred at a bitrate.
pub fn preferred_formats(bitrate: Bitrate) -> (formats: [AudioFileFormat; 7])
    ensures
        formats@ == preference(bitrate),
{
    match bitrate {
        Bitrate::B96 => [
            AudioFileFormat::OggVorbis96,
            AudioFileFormat::Mp3At96,
            AudioFileFormat::OggVorbis160,
            AudioFileFormat::Mp3At160,
            AudioFileFormat::Mp3At256,
            AudioFileFormat::OggVorbis320,
            AudioFileFormat::Mp3At320,
        ],
        Bitrate::B160 => [
            AudioFileFormat::OggVorbis160,
            AudioFileFormat::Mp3At160,
            AudioFileFormat::OggVorbis96,
            AudioFileFormat::Mp3At96,
            AudioFileFormat::Mp3At256,
            AudioFileFormat::OggVorbis320,
            AudioFileFormat::Mp3At320,
        ],
        Bitrate::B320 => [
            AudioFileFormat::OggVorbis320,
            AudioFileFormat::Mp3At320,
            AudioFileFormat::Mp3At256,
            AudioFileFormat::OggVorbis160,
            AudioFileFormat::Mp3At160,
            AudioFileFormat::OggVorbis96,
            AudioFileFormat::Mp3At96,
        ],
    }
}

/// Every format is in the order of preference at every bitrate, so that a track
/// with any of them can be kept.
pub proof fn law_every_format_is_acceptable(bitrate: Bitrate, format: AudioFileFormat)
    ensures
        preference(bitrate).contains(format),
        preference(bitrate).len() == 7,
{
    let formats = preference(bitrate);
    assert(exists|i: int| 0 <= i < 7 && formats[i] == format) by {
        assert(formats[0] == format || formats[1] == format || formats[2] == format || formats[3]
            == format || formats[4] == format || formats[5] == format || formats[6] == format);
    }
}

/// Where the first file of a format is in a list of files; the length of the
/// list if there is none.
pub open spec fn first_of_format(
    files: Seq<(AudioFileFormat, FileId)>,
    format: AudioFileFormat,
) -> int
    decreases files.len(),
{
    if files.len() == 0 || files.first().0 == format {
        0
    } else {
        1 + first_of_format(files.skip(1), format)
    }
}

/// Where the first file of a format is in a list of files.
fn find_format(files: &Vec<(AudioFileFormat, FileId)>, format: AudioFileFormat) -> (at: usize)
    ensures
        at == first_of_format(files@, format),
        at <= files@.len(),
        at < files@.len() ==> files@[at as int].0 == format,
        forall|i: int| 0 <= i < at ==> (#[trigger] files@[i]).0 != format,
{
    let mut i: usize = 0;
    assert(files@.skip(0) =~= files@);
    while i < files.len() && files[i].0 != format
        invariant
            i <= files@.len(),
            first_of_format(files@, format) == i + first_of_format(files@.skip(i as int), format),
            forall|k: int| 0 <= k < i ==> (#[trigger] files@[k]).0 != format,
        decreases files@.len() - i,
    {
        assert(files@.skip(i as int).skip(1) =~= files@.skip(i + 1));
        i = i + 1;
    }
    i
}

/// The file that is kept of a track: one in the first format of the preferred
/// ones that there is a file in; nothing if there is a file in none.
pub open spec fn chosen_file(
    preferred: Seq<AudioFileFormat>,
    files: Seq<(AudioFileFormat, FileId)>,
) -> Option<(AudioFileFormat, FileId)>
    decreases preferred.len(),
{
    if preferred.len() == 0 {
        None
    } else {
        let at = first_of_format(files, preferred.first());
        if at < files.len() {
            Some((preferred.first(), files[at].1))
        } else {
            chosen_file(preferred.skip(1), files)
        }
    }
}

/// The file that is kept of a track.
pub fn choose_file(
    preferred: &[AudioFileFormat; 7],
    files: &Vec<(AudioFileFormat, FileId)>,
) -> (chosen: Option<(AudioFileFormat, FileId)>)
    ensures
        chosen == chosen_file(preferred@, files@),
{
    let mut k: usize = 0;
    assert(preferred@.skip(0) =~= preferred@);
    while k < 7
        invariant
            k <= 7,
            chosen_file(preferred@, files@) == chosen_file(preferred@.skip(k as int), files@),
        decreases 7 - k,
    {
        let format = preferred[k];
        let at: usize = find_format(files, format);
        if at < files.len() {
            return Some((format, files[at].1));
        }
        assert(preferred@.skip(k as int).skip(1) =~= preferred@.skip(k + 1));
        k = k + 1;
    }
    None
}

/// A track with a file in any format has a file that is kept, and that file is
/// one of its files.
pub proof fn law_a_kept_file_is_a_file_of_the_track(
    preferred: Seq<AudioFileFormat>,
    files: Seq<(AudioFileFormat, FileId)>,
)
    ensures
        match chosen_file(preferred, files) {
            Some((format, file)) => preferred.contains(format) && files.contains((format, file)),
            None => forall|i: int, j: int|
                0 <= i < preferred.len() && 0 <= j < files.len() ==> #[trigger] files[j].0
                    != #[trigger] preferred[i],
        },
    decreases preferred.len(),
{
    if preferred.len() > 0 {
        let format = preferred.first();
        lemma_first_of_format(files, format);
        let at = first_of_format(files, format);
        law_a_kept_file_is_a_file_of_the_track(preferred.skip(1), files);
        match chosen_file(preferred, files) {
            Some((found, file)) => {
                if at < files.len() {
                    assert(files[at] == (found, file));
                    assert(preferred[0] == found);
                } else {
                    let k = preferred.skip(1).index_of(found);
                    assert(preferred.skip(1).contains(found));
                    assert(preferred[k + 1] == found);
                }
            },
            None => {
                assert forall|i: int, j: int|
                    0 <= i < preferred.len() && 0 <= j < files.len() implies #[trigger] files[j].0
                    != #[trigger] preferred[i] by {
                    if i > 0 {
                        assert(preferred.skip(1)[i - 1] == preferred[i]);
                    }
                }
            },
        }
    }
}

/// What `first_of_format` finds is a file of the format, and none comes before it.
proof fn lemma_first_of_format(files: Seq<(AudioFileFormat, FileId)>, format: AudioFileFormat)
    ensures
        0 <= first_of_format(files, format) <= files.len(),
        first_of_format(files, format) < files.len() ==> files[first_of_format(files, format)].0
            == format,
        forall|i: int|
            0 <= i < first_of_format(files, format) ==> (#[trigger] files[i]).0 != format,
    decreases files.len(),
{
    if files.len() > 0 && files.first().0 != format {
        lemma_first_of_format(files.skip(1), format);
        assert forall|i: int|
            0 <= i < first_of_format(files, format) implies (#[trigger] files[i]).0 != format by {
            if i > 0 {
                assert(files.skip(1)[i - 1] == files[i]);
            }
        }
    }
}

/// What the index is to say of a track that is kept.
pub open spec fn kept_entry(
    track_uri: Seq<char>,
    item: AudioItem,
    format: i32,
    file: FileId,
) -> EntryView {
    EntryView {
        track_uri,
        file_id_hex: encoding::lower_hex(file.0@),
        format,
        name: item.name@,
        artist: match item.unique_fields {
            UniqueFields::Track { artists, album } => if artists@.len() > 0 {
                artists@[0]@
            } else {
                Seq::empty()
            },
            UniqueFields::Other => Seq::empty(),
        },
        album: match item.unique_fields {
            UniqueFields::Track { artists, album } => album@,
            UniqueFields::Other => Seq::empty(),
        },
        cover_url: if item.covers@.len() > 0 {
            item.covers@[0]@
        } else {
            Seq::empty()
        },
        duration_ms: item.duration_ms,
        is_explicit: item.is_explicit,
    }
}

/// What the index is to say of a track that is kept.
pub fn persisted_entry(track_uri: &str, item: &AudioItem, format: i32, file: FileId) -> (entry:
    OfflineTrackIndexEntry)
    ensures
        entry.view() == kept_entry(track_uri@, *item, format, file),
{
    let artist = match &item.unique_fields {
        UniqueFields::Track { artists, album } => if artists.len() > 0 {
            artists[0].clone()
        } else {
            String::new()
        },
        UniqueFields::Other => String::new(),
    };
    let album = match &item.unique_fields {
        UniqueFields::Track { artists, album } => album.clone(),
        UniqueFields::Other => String::new(),
    };
    let cover_url = if item.covers.len() > 0 {
        item.covers[0].clone()
    } else {
        String::new()
    };
    OfflineTrackIndexEntry {
        track_uri: track_uri.to_owned(),
        file_id_hex: file.to_base16(),
        format,
        name: item.name.clone(),
        artist,
        album,
        cover_url,
        duration_ms: item.duration_ms,
        is_explicit: item.is_explicit,
    }
}

/// A track that is to be played from what is kept.
#[derive(Debug)]
pub struct OfflineLoad {
    pub track_uri: String,
    pub file_id: FileId,
    pub format: i32,
    pub name: String,
    pub artist: String,
    pub album: String,
    pub cover_url: String,
    pub duration_ms: u32,
    pub is_explicit: bool,
}

/// Whether the entry of a track can be played: it names a file and a format
/// that is known.
pub open spec fn is_playable(entry: EntryView, known_formats: Seq<i32>) -> bool {
    encoding::is_hex(entry.file_id_hex) && known_formats.contains(entry.format)
}

/// Whether what is to be played of a track is what its entry says.
pub open spec fn loads_entry(load: OfflineLoad, entry: EntryView, track_uri: Seq<char>) -> bool {
    &&& load.track_uri@ == track_uri
    &&& load.file_id.0@ == encoding::hex_bytes(entry.file_id_hex)
    &&& load.format == entry.format
    &&& load.name@ == entry.name
    &&& load.artist@ == entry.artist
    &&& load.album@ == entry.album
    &&& load.cover_url@ == entry.cover_url
    &&& load.duration_ms == entry.duration_ms
    &&& load.is_explicit == entry.is_explicit
}

impl OfflineIndex {
    /// Whether the file that the index names for a track, if it is written in
    /// hexadecimal digits, is written in as many as a file has.
    pub open spec fn names_a_file(self, track_uri: Seq<char>) -> bool {
        self.says(track_uri) matches Some(entry) ==> encoding::is_hex(entry.file_id_hex)
            ==> entry.file_id_hex.len() == 40
    }

    /// What is to be played of a track without a connection; nothing if its
    /// address is not valid, if it is not kept, or if its entry cannot be
    /// played.
    pub fn offline_track(&self, track_uri: &str, uri_valid: bool, known_formats: &[i32]) -> (load:
        Option<OfflineLoad>)
        requires
            self.wf(),
            self.names_a_file(track_uri@),
        ensures
            load is Some <==> uri_valid && self.says(track_uri@) is Some && is_playable(
                self.says(track_uri@)->Some_0,
                known_formats@,
            ),
            load matches Some(play) ==> loads_entry(play, self.says(track_uri@)->Some_0, track_uri@),
    {
        if !uri_valid {
            return None;
        }
        let entry = match self.get(track_uri) {
            Some(entry) => entry,
            None => {
                return None;
            },
        };
        let file_id = match parse_file_id_hex(entry.file_id_hex.as_str()) {
            Some(file_id) => file_id,
            None => {
                return None;
            },
        };
        let mut known = false;
        let mut i: usize = 0;
        while i < known_formats.len()
            invariant
                i <= known_formats@.len(),
                known <==> exists|k: int| 0 <= k < i && #[trigger] known_formats@[k]
                    == entry.format,
            decreases known_formats@.len() - i,
        {
            if known_formats[i] == entry.format {
                known = true;
            }
            i = i + 1;
        }
        if !known {
            return None;
        }
        Some(
            OfflineLoad {
                track_uri: track_uri.to_owned(),
                file_id,
                format: entry.format,
                name: entry.name.clone(),
                artist: entry.artist.clone(),
                album: entry.album.clone(),
                cover_url: entry.cover_url.clone(),
                duration_ms: entry.duration_ms,
                is_explicit: entry.is_explicit,
            },
        )
    }

    /// The file of a track that is kept.
    pub fn kept_file(&self, track_uri: &str) -> (file: Option<FileId>)
        requires
            self.wf(),
            self.names_a_file(track_uri@),
        ensures
            file is Some <==> self.says(track_uri@) is Some && encoding::is_hex(
                self.says(track_uri@)->Some_0.file_id_hex,
            ),
            file matches Some(id) ==> id.0@ == encoding::hex_bytes(
                self.says(track_uri@)->Some_0.file_id_hex,
            ),
    {
        match self.get(track_uri) {
            Some(entry) => parse_file_id_hex(entry.file_id_hex.as_str()),
            None => None,
        }
    }
}

/// A track that was put into the index can be played from it, if its format is
/// known: it is found there with the file that was kept.
pub proof fn law_kept_tracks_can_be_played(entry: EntryView, file: FileId, known_formats: Seq<i32>)
    requires
        entry.file_id_hex == encoding::lower_hex(file.0@),
        known_formats.contains(entry.format),
    ensures
        is_playable(entry, known_formats),
        entry.file_id_hex.len() == 40,
        encoding::hex_bytes(entry.file_id_hex) == file.0@,
{
    encoding::law_hex_round_trip(file.0@);
}

/// The kilobits per second of a file in a format.
pub open spec fn bitrate_of(format: AudioFileFormat) -> int {
    match format {
        AudioFileFormat::OggVorbis96 | AudioFileFormat::Mp3At96 => 96,
        AudioFileFormat::OggVorbis160 | AudioFileFormat::Mp3At160 => 160,
        AudioFileFormat::Mp3At256 => 256,
        AudioFileFormat::OggVorbis320 | AudioFileFormat::Mp3At320 => 320,
    }
}

/// Whether a format is Ogg Vorbis.
pub open spec fn is_ogg(format: AudioFileFormat) -> bool {
    format == AudioFileFormat::OggVorbis96 || format == AudioFileFormat::OggVorbis160 || format
        == AudioFileFormat::OggVorbis320
}

/// The kilobits per second that are asked for.
pub open spec fn wanted_bitrate(bitrate: Bitrate) -> int {
    match bitrate {
        Bitrate::B96 => 96,
        Bitrate::B160 => 160,
        Bitrate::B320 => 320,
    }
}

/// Whether a file in one format is as good as one in another where a bitrate is
/// wanted. What needs no more than that bitrate is better than what needs more.
/// Of the first the higher bitrate is better, and of the second the lower. At
/// the same bitrate Ogg Vorbis is better than MP3.
pub open spec fn at_least_as_good(wanted: int, one: AudioFileFormat, other: AudioFileFormat) -> bool {
    &&& bitrate_of(one) > wanted ==> bitrate_of(other) > wanted && bitrate_of(one) <= bitrate_of(
        other,
    )
    &&& bitrate_of(one) <= wanted && bitrate_of(other) <= wanted ==> bitrate_of(one)
        >= bitrate_of(other)
    &&& bitrate_of(one) == bitrate_of(other) && is_ogg(other) ==> is_ogg(one)
}

/// The formats are preferred in the order of what is asked for: first of all Ogg
/// Vorbis at exactly the bitrate, and no format before a better one. At 320 the
/// bitrates never go up along the list, at 96 they never go down, and of two
/// formats with one bitrate Ogg Vorbis comes first.
pub proof fn law_formats_are_preferred_by_bitrate(bitrate: Bitrate)
    ensures
        ({
            let formats = preference(bitrate);
            let wanted = wanted_bitrate(bitrate);
            &&& formats.len() == 7
            &&& is_ogg(formats[0]) && bitrate_of(formats[0]) == wanted
            &&& forall|i: int, j: int|
                0 <= i < j < 7 ==> {
                    &&& at_least_as_good(wanted, #[trigger] formats[i], #[trigger] formats[j])
                    &&& formats[i] != formats[j]
                    &&& wanted == 320 ==> bitrate_of(formats[i]) >= bitrate_of(formats[j])
                    &&& wanted == 96 ==> bitrate_of(formats[i]) <= bitrate_of(formats[j])
                    &&& bitrate_of(formats[i]) == bitrate_of(formats[j]) ==> is_ogg(formats[i])
                        && !is_ogg(formats[j])
                }
        }),
{
}

/// What is chosen is the first file in the first preferred format that there is
/// a file in.
proof fn lemma_chosen_file(
    preferred: Seq<AudioFileFormat>,
    files: Seq<(AudioFileFormat, FileId)>,
) -> (at: int)
    ensures
        chosen_file(preferred, files) matches Some((format, file)) ==> {
            &&& 0 <= at < preferred.len() && preferred[at] == format
            &&& forall|i: int, j: int|
                0 <= i < at && 0 <= j < files.len() ==> (#[trigger] files[j]).0
                    != #[trigger] preferred[i]
            &&& 0 <= first_of_format(files, format) < files.len()
            &&& files[first_of_format(files, format)] == (format, file)
        },
    decreases preferred.len(),
{
    if preferred.len() == 0 {
        0
    } else {
        let format = preferred.first();
        lemma_first_of_format(files, format);
        if first_of_format(files, format) < files.len() {
            0
        } else {
            let rest = preferred.skip(1);
            let at = lemma_chosen_file(rest, files);
            if chosen_file(rest, files) is Some {
                assert forall|i: int, j: int|
                    0 <= i < at + 1 && 0 <= j < files.len() implies (#[trigger] files[j]).0
                    != #[trigger] preferred[i] by {
                    if i > 0 {
                        assert(rest[i - 1] == preferred[i]);
                    }
                }
            }
            at + 1
        }
    }
}

/// A track is kept in the best of its files. No file of it is better at the
/// bitrate that is asked for than the one that is chosen: at 320 none has a
/// higher bitrate. A track that has a file in Ogg Vorbis at exactly the bitrate
/// is kept in that, and a track that has any file is kept. Of several files in
/// the chosen format the first is taken.
pub proof fn law_a_track_is_kept_in_its_best_file(
    bitrate: Bitrate,
    files: Seq<(AudioFileFormat, FileId)>,
)
    ensures
        ({
            let wanted = wanted_bitrate(bitrate);
            let chosen = chosen_file(preference(bitrate), files);
            &&& chosen is Some <==> files.len() > 0
            &&& chosen matches Some((format, file)) ==> {
                &&& exists|at: int|
                    0 <= at < files.len() && #[trigger] files[at] == (format, file) && forall|i: int|
                        0 <= i < at ==> (#[trigger] files[i]).0 != format
                &&& forall|j: int|
                    0 <= j < files.len() ==> {
                        &&& at_least_as_good(wanted, format, (#[trigger] files[j]).0)
                        &&& wanted == 320 ==> bitrate_of(files[j].0) <= bitrate_of(format)
                        &&& is_ogg(files[j].0) && bitrate_of(files[j].0) == wanted ==> format
                            == files[j].0
                    }
            }
        }),
{
    let preferred = preference(bitrate);
    let chosen = chosen_file(preferred, files);
    law_formats_are_preferred_by_bitrate(bitrate);
    law_a_kept_file_is_a_file_of_the_track(preferred, files);
    let at = lemma_chosen_file(preferred, files);
    if chosen is None && files.len() > 0 {
        law_every_format_is_acceptable(bitrate, files[0].0);
        let k = preferred.index_of(files[0].0);
        assert(preferred[k] == files[0].0);
    }
    if let Some((format, file)) = chosen {
        lemma_first_of_format(files, format);
        let first = first_of_format(files, format);
        assert(files[first] == (format, file));
        assert forall|j: int| 0 <= j < files.len() implies {
            &&& at_least_as_good(wanted_bitrate(bitrate), format, (#[trigger] files[j]).0)
            &&& wanted_bitrate(bitrate) == 320 ==> bitrate_of(files[j].0) <= bitrate_of(format)
            &&& is_ogg(files[j].0) && bitrate_of(files[j].0) == wanted_bitrate(bitrate) ==> format
                == files[j].0
        } by {
            law_every_format_is_acceptable(bitrate, files[j].0);
            let k = preferred.index_of(files[j].0);
            assert(preferred[k] == files[j].0);
            assert(at <= k);
        }
    }
}

/// The index says of a track that is kept what the track is: it is found under
/// the address it was asked for by, with its own name, length and mark, the first
/// of its artists and covers and its album, and nothing in the place of what is
/// not known.
pub proof fn law_the_index_says_what_a_track_is(
    track_uri: Seq<char>,
    item: AudioItem,
    format: i32,
    file: FileId,
)
    ensures
        ({
            let entry = kept_entry(track_uri, item, format, file);
            &&& entry.track_uri == track_uri
            &&& encoding::is_hex(entry.file_id_hex)
            &&& encoding::hex_bytes(entry.file_id_hex) == file.0@
            &&& entry.format == format
            &&& entry.name == item.name@
            &&& entry.duration_ms == item.duration_ms
            &&& entry.is_explicit == item.is_explicit
            &&& item.covers@.len() > 0 ==> entry.cover_url == item.covers@[0]@
            &&& item.covers@.len() == 0 ==> entry.cover_url.len() == 0
            &&& item.unique_fields matches UniqueFields::Track { artists, album } ==> {
                &&& entry.album == album@
                &&& artists@.len() > 0 ==> entry.artist == artists@[0]@
                &&& artists@.len() == 0 ==> entry.artist.len() == 0
            }
            &&& item.unique_fields is Other ==> entry.album.len() == 0 && entry.artist.len() == 0
        }),
{
    encoding::law_hex_round_trip(file.0@);
}

/// Of the entries about a track the last one counts, and a track is kept exactly
/// if there is an entry about it.
pub proof fn law_the_last_entry_about_a_track_counts(
    entries: Seq<OfflineTrackIndexEntry>,
    track_uri: Seq<char>,
)
    ensures
        lookup(entries, track_uri) is Some <==> exists|i: int|
            0 <= i < entries.len() && (#[trigger] entries[i]).track_uri@ == track_uri,
        lookup(entries, track_uri) matches Some(said) ==> exists|at: int|
            0 <= at < entries.len() && (#[trigger] entries[at]).view() == said && said.track_uri
                == track_uri && forall|i: int|
                at < i < entries.len() ==> (#[trigger] entries[i]).track_uri@ != track_uri,
    decreases entries.len(),
{
    if entries.len() > 0 {
        let last = entries.len() - 1;
        let rest = entries.drop_last();
        law_the_last_entry_about_a_track_counts(rest, track_uri);
        if entries.last().track_uri@ == track_uri {
            assert(entries[last].view() == lookup(entries, track_uri)->Some_0);
        } else {
            if let Some(said) = lookup(rest, track_uri) {
                let at = choose|at: int|
                    0 <= at < rest.len() && (#[trigger] rest[at]).view() == said && said.track_uri
                        == track_uri && forall|i: int|
                        at < i < rest.len() ==> (#[trigger] rest[i]).track_uri@ != track_uri;
                assert(entries[at].view() == said);
                assert forall|i: int| at < i < entries.len() implies (#[trigger] entries[i]).track_uri@
                    != track_uri by {
                    if i < last {
                        assert(rest[i].track_uri@ != track_uri);
                    }
                }
            } else {
                assert forall|i: int| 0 <= i < entries.len() implies (#[trigger] entries[i]).track_uri@
                    != track_uri by {
                    if i < last {
                        assert(rest[i].track_uri@ != track_uri);
                    }
                }
            }
        }
    }
}

/// An entry can be played exactly if its file is written as pairs of hexadecimal
/// digits and its format is one of those that are known. The view of an entry
/// shows each of its fields.
pub proof fn law_entries_show_what_can_be_played(
    entry: OfflineTrackIndexEntry,
    known_formats: Seq<i32>,
)
    ensures
        entry.view().track_uri == entry.track_uri@,
        entry.view().file_id_hex == entry.file_id_hex@,
        entry.view().format == entry.format,
        entry.view().name == entry.name@,
        entry.view().artist == entry.artist@,
        entry.view().album == entry.album@,
        entry.view().cover_url == entry.cover_url@,
        entry.view().duration_ms == entry.duration_ms,
        entry.view().is_explicit == entry.is_explicit,
        is_playable(entry.view(), known_formats) <==> {
            &&& entry.file_id_hex@.len() % 2 == 0
            &&& forall|i: int|
                0 <= i < entry.file_id_hex@.len() ==> {
                    let c = #[trigger] entry.file_id_hex@[i];
                    '0' <= c <= '9' || 'a' <= c <= 'f' || 'A' <= c <= 'F'
                }
            &&& exists|k: int| 0 <= k < known_formats.len() && known_formats[k] == entry.format
        },
{
    let text = entry.file_id_hex@;
    if encoding::is_hex(text) {
        assert forall|i: int| 0 <= i < text.len() implies {
            let c = #[trigger] text[i];
            '0' <= c <= '9' || 'a' <= c <= 'f' || 'A' <= c <= 'F'
        } by {
            assert(encoding::hex_value(text[i]) is Some);
        }
    }
}

/// A track that was kept is played as it was: what is loaded of it without a
/// connection has the file and the format that were kept, and the name, artist,
/// album, cover, length and mark of the track.
pub proof fn law_a_kept_track_is_played_as_it_was(
    track_uri: Seq<char>,
    item: AudioItem,
    format: i32,
    file: FileId,
    known_formats: Seq<i32>,
    load: OfflineLoad,
)
    requires
        known_formats.contains(format),
        loads_entry(load, kept_entry(track_uri, item, format, file), track_uri),
    ensures
        is_playable(kept_entry(track_uri, item, format, file), known_formats),
        load.track_uri@ == track_uri,
        load.file_id.0@ == file.0@,
        load.format == format,
        load.name@ == item.name@,
        load.duration_ms == item.duration_ms,
        load.is_explicit == item.is_explicit,
        item.covers@.len() > 0 ==> load.cover_url@ == item.covers@[0]@,
        item.unique_fields matches UniqueFields::Track { artists, album } ==> load.album@ == album@
            && (artists@.len() > 0 ==> load.artist@ == artists@[0]@),
{
    encoding::law_hex_round_trip(file.0@);
}

} // verus!
