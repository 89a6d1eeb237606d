//! What the player reports, what a runner remembers of it, and what it tells the
//! frontend.
use crate::ffi_types::{AudioFormat, EventType};
use crate::text;
use vstd::prelude::*;

verus! {

/// What is particular to a kind of audio.
#[derive(Debug)]
pub enum UniqueFields {
    Track { artists: Vec<String>, album: String },
    Other,
}

/// What is known of a piece of audio.
#[derive(Debug)]
pub struct AudioItem {
    pub uri: String,
    pub name: String,
    pub duration_ms: u32,
    pub is_explicit: bool,
    /// The addresses of the covers.
    pub covers: Vec<String>,
    pub unique_fields: UniqueFields,
}

/// What the player reports.
#[derive(Debug)]
pub enum PlayerEvent {
    Playing { play_request_id: u64, track_id: String, position_ms: u32 },
    Paused { play_request_id: u64, track_id: String, position_ms: u32 },
    Loading { play_request_id: u64, track_id: String, position_ms: u32 },
    Seeked { play_request_id: u64, track_id: String, position_ms: u32, audio_generation: u64 },
    PositionCorrection { play_request_id: u64, track_id: String, position_ms: u32 },
    PositionChanged { play_request_id: u64, track_id: String, position_ms: u32 },
    TrackChanged {
        audio_item: AudioItem,
        play_request_id: u64,
        audio_generation: u64,
        was_preloaded: bool,
    },
    VolumeChanged { volume: u16 },
    ShuffleChanged { shuffle: bool },
    RepeatChanged { context: bool, track: bool },
    AutoPlayChanged { auto_play: bool },
    FilterExplicitContentChanged { filter: bool },
    SessionConnected { user_name: String },
    SessionDisconnected { user_name: String },
    SessionClientChanged { client_name: String },
    AddedToQueue { track_id: String },
    Preloading { track_id: String },
    TimeToPreloadNextTrack { play_request_id: u64, track_id: String },
    Stopped { play_request_id: u64, track_id: String },
    EndOfTrack { play_request_id: u64, track_id: String },
    Unavailable { play_request_id: u64, track_id: String },
    PlayRequestIdChanged { play_request_id: u64 },
}

/// What a frontend is told of a track. The texts hold no NUL.
#[derive(Debug)]
pub struct TrackMetadataInternal {
    pub uri: String,
    pub name: String,
    pub artist: String,
    pub album: String,
    pub cover_url: String,
    pub duration_ms: u32,
}

/// What a frontend is told of a track, with texts as sequences of characters.
#[verifier::ext_equal]
pub struct TrackView {
    pub uri: Seq<char>,
    pub name: Seq<char>,
    pub artist: Seq<char>,
    pub album: Seq<char>,
    pub cover_url: Seq<char>,
    pub duration_ms: u32,
}

impl TrackMetadataInternal {
    /// The texts as sequences of characters.
    pub open spec fn view(self) -> TrackView {
        TrackView {
            uri: self.uri@,
            name: self.name@,
            artist: self.artist@,
            album: self.album@,
            cover_url: self.cover_url@,
            duration_ms: self.duration_ms,
        }
    }

    /// A copy.
    pub fn copy(&self) -> (copy: TrackMetadataInternal)
        ensures
            copy.view() == self.view(),
    {
        TrackMetadataInternal {
            uri: self.uri.clone(),
            name: self.name.clone(),
            artist: self.artist.clone(),
            album: self.album.clone(),
            cover_url: self.cover_url.clone(),
            duration_ms: self.duration_ms,
        }
    }
}

/// What a frontend is told. A text that is missing is a null pointer on the C
/// side.
#[derive(Debug)]
pub struct EventRecord {
    pub event_type: EventType,
    pub play_request_id: u64,
    pub track_uri: Option<String>,
    pub position_ms: u32,
    pub duration_ms: u32,
    pub volume: u16,
    pub is_playing: bool,
    pub shuffle: bool,
    pub repeat_mode: u32,
    pub auto_play: bool,
    pub filter_explicit: bool,
    pub track: Option<TrackMetadataInternal>,
    pub session_user: Option<String>,
    pub client_name: Option<String>,
    pub audio_generation: u64,
    pub was_preloaded: bool,
}

/// What a frontend is told, with texts as sequences of characters.
#[verifier::ext_equal]
pub struct EventView {
    pub event_type: EventType,
    pub play_request_id: u64,
    pub track_uri: Option<Seq<char>>,
    pub position_ms: u32,
    pub duration_ms: u32,
    pub volume: u16,
    pub is_playing: bool,
    pub shuffle: bool,
    pub repeat_mode: u32,
    pub auto_play: bool,
    pub filter_explicit: bool,
    pub track: Option<TrackView>,
    pub session_user: Option<Seq<char>>,
    pub client_name: Option<Seq<char>>,
    pub audio_generation: u64,
    pub was_preloaded: bool,
}

/// An optional text as a sequence of characters.
pub open spec fn text_view(content: Option<String>) -> Option<Seq<char>> {
    match content {
        Some(value) => Some(value@),
        None => None,
    }
}

/// An optional track with its texts as sequences of characters.
pub open spec fn track_view(track: Option<TrackMetadataInternal>) -> Option<TrackView> {
    match track {
        Some(value) => Some(value.view()),
        None => None,
    }
}

impl EventRecord {
    /// The texts as sequences of characters.
    pub open spec fn view(self) -> EventView {
        EventView {
            event_type: self.event_type,
            play_request_id: self.play_request_id,
            track_uri: text_view(self.track_uri),
            position_ms: self.position_ms,
            duration_ms: self.duration_ms,
            volume: self.volume,
            is_playing: self.is_playing,
            shuffle: self.shuffle,
            repeat_mode: self.repeat_mode,
            auto_play: self.auto_play,
            filter_explicit: self.filter_explicit,
            track: track_view(self.track),
            session_user: text_view(self.session_user),
            client_name: text_view(self.client_name),
            audio_generation: self.audio_generation,
            was_preloaded: self.was_preloaded,
        }
    }

    /// An event of which nothing more is known.
    pub fn blank(event_type: EventType, audio_generation: u64) -> (record: EventRecord)
        ensures
            record.view() == blank_event(event_type, audio_generation),
    {
        EventRecord {
            event_type,
            play_request_id: 0,
            track_uri: None,
            position_ms: 0,
            duration_ms: 0,
            volume: 0,
            is_playing: false,
            shuffle: false,
            repeat_mode: 0,
            auto_play: false,
            filter_explicit: false,
            track: None,
            session_user: None,
            client_name: None,
            audio_generation,
            was_preloaded: false,
        }
    }
}

/// An event of which nothing more is known.
pub open spec fn blank_event(event_type: EventType, audio_generation: u64) -> EventView {
    EventView {
        event_type,
        play_request_id: 0,
        track_uri: None,
        position_ms: 0,
        duration_ms: 0,
        volume: 0,
        is_playing: false,
        shuffle: false,
        repeat_mode: 0,
        auto_play: false,
        filter_explicit: false,
        track: None,
        session_user: None,
        client_name: None,
        audio_generation,
        was_preloaded: false,
    }
}

/// What a runner remembers.
#[derive(Debug)]
pub struct RunnerState {
    pub is_playing: bool,
    pub shuffle: bool,
    /// Off, the context or the track, as zero, one or two.
    pub repeat: u32,
    pub position_ms: u32,
    /// The write position at which `position_ms` was true.
    pub sync_write_pos: usize,
    pub duration_ms: u32,
    pub volume: u16,
    pub current_track: Option<TrackMetadataInternal>,
    pub sample_rate: u32,
    pub bytes_per_sample: u8,
    pub audio_generation: u64,
}

/// What a runner remembers, with texts as sequences of characters.
#[verifier::ext_equal]
pub struct StateView {
    pub is_playing: bool,
    pub shuffle: bool,
    pub repeat: u32,
    pub position_ms: u32,
    pub sync_write_pos: usize,
    pub duration_ms: u32,
    pub volume: u16,
    pub current_track: Option<TrackView>,
    pub sample_rate: u32,
    pub bytes_per_sample: u8,
    pub audio_generation: u64,
}

/// The mode of repetition that two switches come to.
pub open spec fn repeat_mode(context: bool, track: bool) -> u32 {
    if track {
        2
    } else if context {
        1
    } else {
        0
    }
}

/// The switches that a frontend sets for a mode of repetition.
pub fn repeat_switches(mode: u32) -> (switches: (bool, bool))
    ensures
        switches == (mode >= 1, mode == 2),
{
    (mode >= 1, mode == 2)
}

/// A mode that is set comes back when its switches are reported, if it is one
/// of the three modes.
pub proof fn law_repeat_mode_round_trip(mode: u32)
    requires
        mode <= 2,
    ensures
        repeat_mode(mode >= 1, mode == 2) == mode,
{
}

/// What a frontend is told of a track.
pub open spec fn track_of(item: AudioItem) -> TrackView {
    TrackView {
        uri: text::c_text(item.uri@),
        name: text::c_text(item.name@),
        artist: text::c_text(
            match item.unique_fields {
                UniqueFields::Track { artists, album } => if artists@.len() > 0 {
                    artists@[0]@
                } else {
                    "Unknown Artist"@
                },
                UniqueFields::Other => "Unknown Artist"@,
            },
        ),
        album: text::c_text(
            match item.unique_fields {
                UniqueFields::Track { artists, album } => album@,
                UniqueFields::Other => "Unknown Album"@,
            },
        ),
        cover_url: if item.covers@.len() > 0 {
            text::c_text(item.covers@[0]@)
        } else {
            Seq::empty()
        },
        duration_ms: item.duration_ms,
    }
}

/// An event about a place in a track.
pub open spec fn position_event(
    event_type: EventType,
    generation: u64,
    play_request_id: u64,
    track_id: Seq<char>,
    position_ms: u32,
) -> EventView {
    EventView {
        play_request_id,
        track_uri: Some(text::c_text(track_id)),
        position_ms,
        ..blank_event(event_type, generation)
    }
}

/// An event about a track as a whole.
pub open spec fn track_event(
    event_type: EventType,
    generation: u64,
    play_request_id: u64,
    track_id: Seq<char>,
) -> EventView {
    EventView {
        play_request_id,
        track_uri: Some(text::c_text(track_id)),
        ..blank_event(event_type, generation)
    }
}

/// What a frontend is told of an event. `generation` is the generation of
/// audio that is remembered.
pub open spec fn told(generation: u64, event: PlayerEvent) -> EventView {
    match event {
        PlayerEvent::Playing { play_request_id, track_id, position_ms } => EventView {
            is_playing: true,
            ..position_event(
                EventType::PlaybackResumed,
                generation,
                play_request_id,
                track_id@,
                position_ms,
            )
        },
        PlayerEvent::Paused { play_request_id, track_id, position_ms } => position_event(
            EventType::PlaybackPaused,
            generation,
            play_request_id,
            track_id@,
            position_ms,
        ),
        PlayerEvent::Loading { play_request_id, track_id, position_ms } => position_event(
            EventType::PlaybackLoading,
            generation,
            play_request_id,
            track_id@,
            position_ms,
        ),
        PlayerEvent::Seeked { play_request_id, track_id, position_ms, audio_generation } =>
        position_event(
            EventType::Seeked,
            audio_generation,
            play_request_id,
            track_id@,
            position_ms,
        ),
        PlayerEvent::PositionCorrection { play_request_id, track_id, position_ms } =>
        position_event(
            EventType::PositionCorrection,
            generation,
            play_request_id,
            track_id@,
            position_ms,
        ),
        PlayerEvent::PositionChanged { play_request_id, track_id, position_ms } => position_event(
            EventType::PositionChanged,
            generation,
            play_request_id,
            track_id@,
            position_ms,
        ),
        PlayerEvent::TrackChanged {
            audio_item,
            play_request_id,
            audio_generation,
            was_preloaded,
        } => EventView {
            duration_ms: audio_item.duration_ms,
            track: Some(track_of(audio_item)),
            play_request_id,
            was_preloaded,
            ..blank_event(EventType::TrackChanged, audio_generation)
        },
        PlayerEvent::VolumeChanged { volume } => EventView {
            volume,
            ..blank_event(EventType::VolumeChanged, generation)
        },
        PlayerEvent::ShuffleChanged { shuffle } => EventView {
            shuffle,
            ..blank_event(EventType::ShuffleChanged, generation)
        },
        PlayerEvent::RepeatChanged { context, track } => EventView {
            repeat_mode: repeat_mode(context, track),
            ..blank_event(EventType::RepeatChanged, generation)
        },
        PlayerEvent::AutoPlayChanged { auto_play } => EventView {
            auto_play,
            ..blank_event(EventType::AutoPlayChanged, generation)
        },
        PlayerEvent::FilterExplicitContentChanged { filter } => EventView {
            filter_explicit: filter,
            ..blank_event(EventType::ExplicitFilterChanged, generation)
        },
        PlayerEvent::SessionConnected { user_name } => EventView {
            session_user: Some(text::c_text(user_name@)),
            ..blank_event(EventType::SessionConnected, generation)
        },
        PlayerEvent::SessionDisconnected { user_name } => EventView {
            session_user: Some(text::c_text(user_name@)),
            ..blank_event(EventType::SessionDisconnected, generation)
        },
        PlayerEvent::SessionClientChanged { client_name } => EventView {
            client_name: Some(text::c_text(client_name@)),
            ..blank_event(EventType::ClientChanged, generation)
        },
        PlayerEvent::AddedToQueue { track_id } => track_event(
            EventType::AddedToQueue,
            generation,
            0,
            track_id@,
        ),
        PlayerEvent::Preloading { track_id } => track_event(
            EventType::Preloading,
            generation,
            0,
            track_id@,
        ),
        PlayerEvent::TimeToPreloadNextTrack { play_request_id, track_id } => track_event(
            EventType::TimeToPreloadNextTrack,
            generation,
            play_request_id,
            track_id@,
        ),
        PlayerEvent::Stopped { play_request_id, track_id } => track_event(
            EventType::PlaybackStopped,
            generation,
            play_request_id,
            track_id@,
        ),
        PlayerEvent::EndOfTrack { play_request_id, track_id } => track_event(
            EventType::EndOfTrack,
            generation,
            play_request_id,
            track_id@,
        ),
        PlayerEvent::Unavailable { play_request_id, track_id } => track_event(
            EventType::PlaybackUnavailable,
            generation,
            play_request_id,
            track_id@,
        ),
        PlayerEvent::PlayRequestIdChanged { play_request_id } => EventView {
            play_request_id,
            ..blank_event(EventType::PlayRequestIdChanged, generation)
        },
    }
}

/// What is remembered after an event. `write_pos` is the number of bytes that
/// were written so far.
pub open spec fn remembered(state: StateView, event: PlayerEvent, write_pos: usize) -> StateView {
    match event {
        PlayerEvent::Playing { play_request_id, track_id, position_ms } => StateView {
            position_ms,
            sync_write_pos: write_pos,
            is_playing: true,
            ..state
        },
        PlayerEvent::Paused { play_request_id, track_id, position_ms } => StateView {
            position_ms,
            sync_write_pos: write_pos,
            is_playing: false,
            ..state
        },
        PlayerEvent::Loading { play_request_id, track_id, position_ms } => StateView {
            position_ms,
            sync_write_pos: write_pos,
            ..state
        },
        PlayerEvent::Seeked { play_request_id, track_id, position_ms, audio_generation } =>
        StateView { position_ms, sync_write_pos: write_pos, audio_generation, ..state },
        PlayerEvent::PositionCorrection { play_request_id, track_id, position_ms } => StateView {
            position_ms,
            sync_write_pos: write_pos,
            ..state
        },
        PlayerEvent::PositionChanged { play_request_id, track_id, position_ms } => StateView {
            position_ms,
            sync_write_pos: write_pos,
            ..state
        },
        PlayerEvent::TrackChanged {
            audio_item,
            play_request_id,
            audio_generation,
            was_preloaded,
        } => StateView {
            duration_ms: audio_item.duration_ms,
            position_ms: 0,
            sync_write_pos: write_pos,
            audio_generation,
            current_track: Some(track_of(audio_item)),
            ..state
        },
        PlayerEvent::VolumeChanged { volume } => StateView { volume, ..state },
        PlayerEvent::ShuffleChanged { shuffle } => StateView { shuffle, ..state },
        PlayerEvent::RepeatChanged { context, track } => StateView {
            repeat: repeat_mode(context, track),
            ..state
        },
        PlayerEvent::Stopped { play_request_id, track_id } => StateView {
            is_playing: false,
            ..state
        },
        _ => state,
    }
}

impl RunnerState {
    /// The texts as sequences of characters.
    pub open spec fn view(self) -> StateView {
        StateView {
            is_playing: self.is_playing,
            shuffle: self.shuffle,
            repeat: self.repeat,
            position_ms: self.position_ms,
            sync_write_pos: self.sync_write_pos,
            duration_ms: self.duration_ms,
            volume: self.volume,
            current_track: track_view(self.current_track),
            sample_rate: self.sample_rate,
            bytes_per_sample: self.bytes_per_sample,
            audio_generation: self.audio_generation,
        }
    }

    /// What a runner remembers before anything happened.
    pub fn new(format: AudioFormat, sample_rate: u32) -> (state: RunnerState)
        ensures
            state.view() == (StateView {
                is_playing: false,
                shuffle: false,
                repeat: 0,
                position_ms: 0,
                sync_write_pos: 0,
                duration_ms: 0,
                volume: 0,
                current_track: None,
                sample_rate,
                bytes_per_sample: format.sample_bytes() as u8,
                audio_generation: 0,
            }),
    {
        RunnerState {
            is_playing: false,
            shuffle: false,
            repeat: 0,
            position_ms: 0,
            sync_write_pos: 0,
            duration_ms: 0,
            volume: 0,
            current_track: None,
            sample_rate,
            bytes_per_sample: format.bytes_per_sample(),
            audio_generation: 0,
        }
    }

    /// How many bytes were written since the position was true; nothing if none
    /// were, so that the position is still true.
    pub fn bytes_since_sync(&self, write_pos: usize) -> (bytes: Option<usize>)
        ensures
            bytes is Some <==> write_pos > self.sync_write_pos,
            bytes matches Some(count) ==> count == write_pos - self.sync_write_pos,
    {
        if write_pos <= self.sync_write_pos {
            None
        } else {
            Some(write_pos - self.sync_write_pos)
        }
    }

    /// Remembers a place in a track, and tells of it.
    fn at_position(
        &mut self,
        event_type: EventType,
        play_request_id: u64,
        track_id: &str,
        position_ms: u32,
        write_pos: usize,
    ) -> (record: EventRecord)
        ensures
            final(self).view() == (StateView {
                position_ms,
                sync_write_pos: write_pos,
                ..old(self).view()
            }),
            record.view() == position_event(
                event_type,
                old(self).audio_generation,
                play_request_id,
                track_id@,
                position_ms,
            ),
    {
        self.position_ms = position_ms;
        self.sync_write_pos = write_pos;
        let mut record = EventRecord::blank(event_type, self.audio_generation);
        record.track_uri = Some(text::to_c_text(track_id));
        record.play_request_id = play_request_id;
        record.position_ms = position_ms;
        record
    }

    /// Tells of a track as a whole.
    fn about_track(&self, event_type: EventType, play_request_id: u64, track_id: &str) -> (record:
        EventRecord)
        ensures
            record.view() == track_event(
                event_type,
                self.audio_generation,
                play_request_id,
                track_id@,
            ),
    {
        let mut record = EventRecord::blank(event_type, self.audio_generation);
        record.track_uri = Some(text::to_c_text(track_id));
        record.play_request_id = play_request_id;
        record
    }

    /// Remembers what an event says, and tells the frontend of it.
    pub fn handle_player_event(&mut self, event: PlayerEvent, write_pos: usize) -> (record:
        EventRecord)
        ensures
            record.view() == told(old(self).audio_generation, event),
            final(self).view() == remembered(old(self).view(), event, write_pos),
            place_in(event) matches Some((position_ms, play_request_id, track_id)) ==> {
                &&& record.position_ms == position_ms
                &&& record.play_request_id == play_request_id
                &&& final(self).position_ms == position_ms
                &&& final(self).sync_write_pos == write_pos
            },
    {
        match event {
            PlayerEvent::Playing { play_request_id, track_id, position_ms } => {
                let mut record = self.at_position(
                    EventType::PlaybackResumed,
                    play_request_id,
                    track_id.as_str(),
                    position_ms,
                    write_pos,
                );
                self.is_playing = true;
                record.is_playing = true;
                record
            },
            PlayerEvent::Paused { play_request_id, track_id, position_ms } => {
                let record = self.at_position(
                    EventType::PlaybackPaused,
                    play_request_id,
                    track_id.as_str(),
                    position_ms,
                    write_pos,
                );
                self.is_playing = false;
                record
            },
            PlayerEvent::Loading { play_request_id, track_id, position_ms } => self.at_position(
                EventType::PlaybackLoading,
                play_request_id,
                track_id.as_str(),
                position_ms,
                write_pos,
            ),
            PlayerEvent::Seeked { play_request_id, track_id, position_ms, audio_generation } => {
                self.audio_generation = audio_generation;
                self.at_position(
                    EventType::Seeked,
                    play_request_id,
                    track_id.as_str(),
                    position_ms,
                    write_pos,
                )
            },
            PlayerEvent::PositionCorrection { play_request_id, track_id, position_ms } =>
            self.at_position(
                EventType::PositionCorrection,
                play_request_id,
                track_id.as_str(),
                position_ms,
                write_pos,
            ),
            PlayerEvent::PositionChanged { play_request_id, track_id, position_ms } =>
            self.at_position(
                EventType::PositionChanged,
                play_request_id,
                track_id.as_str(),
                position_ms,
                write_pos,
            ),
            PlayerEvent::TrackChanged {
                audio_item,
                play_request_id,
                audio_generation,
                was_preloaded,
            } => {
                self.duration_ms = audio_item.duration_ms;
                self.position_ms = 0;
                self.sync_write_pos = write_pos;
                self.audio_generation = audio_generation;
                let track = describe_track(&audio_item);
                let mut record = EventRecord::blank(EventType::TrackChanged, audio_generation);
                record.duration_ms = audio_item.duration_ms;
                record.track = Some(track.copy());
                record.play_request_id = play_request_id;
                record.was_preloaded = was_preloaded;
                self.current_track = Some(track);
                record
            },
            PlayerEvent::VolumeChanged { volume } => {
                self.volume = volume;
                let mut record = EventRecord::blank(
                    EventType::VolumeChanged,
                    self.audio_generation,
                );
                record.volume = volume;
                record
            },
            PlayerEvent::ShuffleChanged { shuffle } => {
                self.shuffle = shuffle;
                let mut record = EventRecord::blank(
                    EventType::ShuffleChanged,
                    self.audio_generation,
                );
                record.shuffle = shuffle;
                record
            },
            PlayerEvent::RepeatChanged { context, track } => {
                let mode: u32 = if track {
                    2
                } else if context {
                    1
                } else {
                    0
                };
                self.repeat = mode;
                let mut record = EventRecord::blank(
                    EventType::RepeatChanged,
                    self.audio_generation,
                );
                record.repeat_mode = mode;
                record
            },
            PlayerEvent::AutoPlayChanged { auto_play } => {
                let mut record = EventRecord::blank(
                    EventType::AutoPlayChanged,
                    self.audio_generation,
                );
                record.auto_play = auto_play;
                record
            },
            PlayerEvent::FilterExplicitContentChanged { filter } => {
                let mut record = EventRecord::blank(
                    EventType::ExplicitFilterChanged,
                    self.audio_generation,
                );
                record.filter_explicit = filter;
                record
            },
            PlayerEvent::SessionConnected { user_name } => {
                let mut record = EventRecord::blank(
                    EventType::SessionConnected,
                    self.audio_generation,
                );
                record.session_user = Some(text::to_c_text(user_name.as_str()));
                record
            },
            PlayerEvent::SessionDisconnected { user_name } => {
                let mut record = EventRecord::blank(
                    EventType::SessionDisconnected,
                    self.audio_generation,
                );
                record.session_user = Some(text::to_c_text(user_name.as_str()));
                record
            },
            PlayerEvent::SessionClientChanged { client_name } => {
                let mut record = EventRecord::blank(
                    EventType::ClientChanged,
                    self.audio_generation,
                );
                record.client_name = Some(text::to_c_text(client_name.as_str()));
                record
            },
            PlayerEvent::AddedToQueue { track_id } => self.about_track(
                EventType::AddedToQueue,
                0,
                track_id.as_str(),
            ),
            PlayerEvent::Preloading { track_id } => self.about_track(
                EventType::Preloading,
                0,
                track_id.as_str(),
            ),
            PlayerEvent::TimeToPreloadNextTrack { play_request_id, track_id } => self.about_track(
                EventType::TimeToPreloadNextTrack,
                play_request_id,
                track_id.as_str(),
            ),
            PlayerEvent::Stopped { play_request_id, track_id } => {
                self.is_playing = false;
                self.about_track(EventType::PlaybackStopped, play_request_id, track_id.as_str())
            },
            PlayerEvent::EndOfTrack { play_request_id, track_id } => self.about_track(
                EventType::EndOfTrack,
                play_request_id,
                track_id.as_str(),
            ),
            PlayerEvent::Unavailable { play_request_id, track_id } => self.about_track(
                EventType::PlaybackUnavailable,
                play_request_id,
                track_id.as_str(),
            ),
            PlayerEvent::PlayRequestIdChanged { play_request_id } => {
                let mut record = EventRecord::blank(
                    EventType::PlayRequestIdChanged,
                    self.audio_generation,
                );
                record.play_request_id = play_request_id;
                record
            },
        }
    }
}

/// What a frontend is told of a track.
fn describe_track(item: &AudioItem) -> (track: TrackMetadataInternal)
    ensures
        track.view() == track_of(*item),
{
    let artist = match &item.unique_fields {
        UniqueFields::Track { artists, album } => if artists.len() > 0 {
            text::to_c_text(artists[0].as_str())
        } else {
            text::to_c_text("Unknown Artist")
        },
        UniqueFields::Other => text::to_c_text("Unknown Artist"),
    };
    let album = match &item.unique_fields {
        UniqueFields::Track { artists, album } => text::to_c_text(album.as_str()),
        UniqueFields::Other => text::to_c_text("Unknown Album"),
    };
    let cover_url = if item.covers.len() > 0 {
        text::to_c_text(item.covers[0].as_str())
    } else {
        let none = String::new();
        assert(none@ =~= Seq::empty());
        none
    };
    TrackMetadataInternal {
        uri: text::to_c_text(item.uri.as_str()),
        name: text::to_c_text(item.name.as_str()),
        artist,
        album,
        cover_url,
        duration_ms: item.duration_ms,
    }
}

/// The generation of audio that is remembered is the last one that was
/// reported: every event is told with the generation that is remembered after
/// it.
pub proof fn law_events_carry_the_current_generation(
    state: StateView,
    event: PlayerEvent,
    write_pos: usize,
)
    ensures
        told(state.audio_generation, event).audio_generation == remembered(
            state,
            event,
            write_pos,
        ).audio_generation,
{
}

/// What the frontend asks for agrees with what it was last told: after an event
/// about a place the remembered place is the one that was told, and after a
/// change of track the place is the start and the track is the one that was
/// told.
pub proof fn law_the_state_agrees_with_the_events(
    state: StateView,
    event: PlayerEvent,
    write_pos: usize,
)
    ensures
        ({
            let seen = told(state.audio_generation, event);
            let after = remembered(state, event, write_pos);
            &&& event is TrackChanged ==> after.position_ms == 0 && after.current_track
                == seen.track && after.duration_ms == seen.duration_ms
            &&& event is Playing || event is Paused || event is Loading || event is Seeked
                || event is PositionCorrection || event is PositionChanged ==> after.position_ms
                == seen.position_ms && after.sync_write_pos == write_pos
            &&& event is VolumeChanged ==> after.volume == seen.volume
            &&& event is ShuffleChanged ==> after.shuffle == seen.shuffle
            &&& event is RepeatChanged ==> after.repeat == seen.repeat_mode && after.repeat <= 2
        }),
{
}

/// A text as C can hold it: the text itself unless it holds a NUL, and then
/// nothing of it.
pub open spec fn is_told_as(content: Seq<char>, told: Option<Seq<char>>) -> bool {
    &&& told is Some
    &&& !content.contains('\0') ==> told->Some_0 == content
    &&& content.contains('\0') ==> told->Some_0.len() == 0
}

/// The place, the request and the track of an event that speaks of a place.
pub open spec fn place_in(event: PlayerEvent) -> Option<(u32, u64, Seq<char>)> {
    match event {
        PlayerEvent::Playing { play_request_id, track_id, position_ms } => Some(
            (position_ms, play_request_id, track_id@),
        ),
        PlayerEvent::Paused { play_request_id, track_id, position_ms } => Some(
            (position_ms, play_request_id, track_id@),
        ),
        PlayerEvent::Loading { play_request_id, track_id, position_ms } => Some(
            (position_ms, play_request_id, track_id@),
        ),
        PlayerEvent::Seeked { play_request_id, track_id, position_ms, audio_generation } => Some(
            (position_ms, play_request_id, track_id@),
        ),
        PlayerEvent::PositionCorrection { play_request_id, track_id, position_ms } => Some(
            (position_ms, play_request_id, track_id@),
        ),
        PlayerEvent::PositionChanged { play_request_id, track_id, position_ms } => Some(
            (position_ms, play_request_id, track_id@),
        ),
        _ => None,
    }
}

/// An event about a place is told and remembered with that very place: the
/// position, the request and the track are those of the event, and the position
/// is true at the number of bytes written by then. No other event but a change of
/// track, which begins at the start, moves the place.
pub proof fn law_the_place_is_that_of_the_event(
    state: StateView,
    event: PlayerEvent,
    write_pos: usize,
)
    ensures
        ({
            let seen = told(state.audio_generation, event);
            let after = remembered(state, event, write_pos);
            match place_in(event) {
                Some((position_ms, play_request_id, track_id)) => {
                    &&& seen.position_ms == position_ms
                    &&& after.position_ms == position_ms
                    &&& after.sync_write_pos == write_pos
                    &&& seen.play_request_id == play_request_id
                    &&& is_told_as(track_id, seen.track_uri)
                },
                None => if event is TrackChanged {
                    &&& after.position_ms == 0
                    &&& after.sync_write_pos == write_pos
                } else {
                    &&& after.position_ms == state.position_ms
                    &&& after.sync_write_pos == state.sync_write_pos
                    &&& seen.position_ms == 0
                },
            }
        }),
{
}

/// Whether the player plays is known from the last event that says so: it does
/// after `Playing`, and does not after `Paused` and `Stopped`; no other event
/// changes it. Only `Playing` is told as playing.
pub proof fn law_playing_follows_the_events(
    state: StateView,
    event: PlayerEvent,
    write_pos: usize,
)
    ensures
        ({
            let seen = told(state.audio_generation, event);
            let after = remembered(state, event, write_pos);
            &&& seen.is_playing <==> event is Playing
            &&& event is Playing ==> after.is_playing
            &&& event is Paused || event is Stopped ==> !after.is_playing
            &&& !(event is Playing) && !(event is Paused) && !(event is Stopped)
                ==> after.is_playing == state.is_playing
        }),
{
}

/// The modes and the volume are those that the last event about them reported,
/// and an event about one of them leaves the others as they were. Where a track
/// repeats, its context does not count.
pub proof fn law_settings_follow_the_events(
    state: StateView,
    event: PlayerEvent,
    write_pos: usize,
)
    ensures
        ({
            let seen = told(state.audio_generation, event);
            let after = remembered(state, event, write_pos);
            &&& event matches PlayerEvent::VolumeChanged { volume } ==> seen.volume == volume
                && after.volume == volume
            &&& event matches PlayerEvent::ShuffleChanged { shuffle } ==> seen.shuffle == shuffle
                && after.shuffle == shuffle
            &&& event matches PlayerEvent::RepeatChanged { context, track } ==> {
                &&& track ==> after.repeat == 2
                &&& !track && context ==> after.repeat == 1
                &&& !track && !context ==> after.repeat == 0
                &&& seen.repeat_mode == after.repeat
            }
            &&& event matches PlayerEvent::AutoPlayChanged { auto_play } ==> seen.auto_play
                == auto_play
            &&& event matches PlayerEvent::FilterExplicitContentChanged { filter }
                ==> seen.filter_explicit == filter
            &&& !(event is VolumeChanged) ==> after.volume == state.volume && seen.volume == 0
            &&& !(event is ShuffleChanged) ==> after.shuffle == state.shuffle && !seen.shuffle
            &&& !(event is RepeatChanged) ==> after.repeat == state.repeat && seen.repeat_mode == 0
            &&& !(event is AutoPlayChanged) ==> !seen.auto_play
            &&& !(event is FilterExplicitContentChanged) ==> !seen.filter_explicit
            &&& after.sample_rate == state.sample_rate
            &&& after.bytes_per_sample == state.bytes_per_sample
        }),
{
}

/// A change of track is told and remembered with the track that it is to: its
/// address, name, length, first artist, album and first cover, with words in the
/// place of an artist or an album that are not known. No other event changes the
/// track or its length.
pub proof fn law_the_track_is_that_of_the_event(
    state: StateView,
    event: PlayerEvent,
    write_pos: usize,
)
    ensures
        ({
            let seen = told(state.audio_generation, event);
            let after = remembered(state, event, write_pos);
            match event {
                PlayerEvent::TrackChanged {
                    audio_item,
                    play_request_id,
                    audio_generation,
                    was_preloaded,
                } => {
                    &&& seen.track matches Some(track) && after.current_track == Some(track)
                        && is_told_as(audio_item.uri@, Some(track.uri)) && is_told_as(
                        audio_item.name@,
                        Some(track.name),
                    ) && track.duration_ms == audio_item.duration_ms && (
                    audio_item.covers@.len() == 0 ==> track.cover_url.len() == 0) && (
                    audio_item.covers@.len() > 0 ==> is_told_as(
                        audio_item.covers@[0]@,
                        Some(track.cover_url),
                    )) && match audio_item.unique_fields {
                        UniqueFields::Track { artists, album } => {
                            &&& is_told_as(album@, Some(track.album))
                            &&& artists@.len() > 0 ==> is_told_as(
                                artists@[0]@,
                                Some(track.artist),
                            )
                            &&& artists@.len() == 0 ==> track.artist == "Unknown Artist"@
                        },
                        UniqueFields::Other => {
                            &&& track.artist == "Unknown Artist"@
                            &&& track.album == "Unknown Album"@
                        },
                    }
                    &&& seen.duration_ms == audio_item.duration_ms
                    &&& after.duration_ms == audio_item.duration_ms
                    &&& seen.play_request_id == play_request_id
                    &&& seen.was_preloaded == was_preloaded
                    &&& seen.audio_generation == audio_generation
                    &&& after.audio_generation == audio_generation
                },
                PlayerEvent::Seeked {
                    play_request_id,
                    track_id,
                    position_ms,
                    audio_generation,
                } => {
                    &&& seen.audio_generation == audio_generation
                    &&& after.audio_generation == audio_generation
                    &&& seen.track is None && after.current_track == state.current_track
                    &&& seen.duration_ms == 0 && after.duration_ms == state.duration_ms
                },
                _ => {
                    &&& seen.audio_generation == state.audio_generation
                    &&& after.audio_generation == state.audio_generation
                    &&& seen.track is None && after.current_track == state.current_track
                    &&& seen.duration_ms == 0 && after.duration_ms == state.duration_ms
                    &&& !seen.was_preloaded
                },
            }
        }),
{
    reveal_strlit("Unknown Artist");
    reveal_strlit("Unknown Album");
    assert(!"Unknown Artist"@.contains('\0'));
    assert(!"Unknown Album"@.contains('\0'));
}

/// Events about a track as a whole, about sessions and about requests name what
/// they are about.
pub proof fn law_events_name_what_they_are_about(state: StateView, event: PlayerEvent)
    ensures
        ({
            let seen = told(state.audio_generation, event);
            match event {
                PlayerEvent::AddedToQueue { track_id } => is_told_as(track_id@, seen.track_uri)
                    && seen.play_request_id == 0,
                PlayerEvent::Preloading { track_id } => is_told_as(track_id@, seen.track_uri)
                    && seen.play_request_id == 0,
                PlayerEvent::TimeToPreloadNextTrack { play_request_id, track_id } => is_told_as(
                    track_id@,
                    seen.track_uri,
                ) && seen.play_request_id == play_request_id,
                PlayerEvent::Stopped { play_request_id, track_id } => is_told_as(
                    track_id@,
                    seen.track_uri,
                ) && seen.play_request_id == play_request_id,
                PlayerEvent::EndOfTrack { play_request_id, track_id } => is_told_as(
                    track_id@,
                    seen.track_uri,
                ) && seen.play_request_id == play_request_id,
                PlayerEvent::Unavailable { play_request_id, track_id } => is_told_as(
                    track_id@,
                    seen.track_uri,
                ) && seen.play_request_id == play_request_id,
                PlayerEvent::PlayRequestIdChanged { play_request_id } => seen.play_request_id
                    == play_request_id && seen.track_uri is None,
                PlayerEvent::SessionConnected { user_name } => is_told_as(
                    user_name@,
                    seen.session_user,
                ),
                PlayerEvent::SessionDisconnected { user_name } => is_told_as(
                    user_name@,
                    seen.session_user,
                ),
                PlayerEvent::SessionClientChanged { client_name } => is_told_as(
                    client_name@,
                    seen.client_name,
                ),
                _ => true,
            }
        }),
        !(event is SessionConnected) && !(event is SessionDisconnected) ==> told(
            state.audio_generation,
            event,
        ).session_user is None,
        !(event is SessionClientChanged) ==> told(
            state.audio_generation,
            event,
        ).client_name is None,
{
}

/// Each kind of event is told as what it is, and as nothing else.
pub proof fn law_each_event_is_told_as_its_kind(generation: u64, event: PlayerEvent)
    ensures
        ({
            let kind = told(generation, event).event_type;
            &&& kind == EventType::PlaybackResumed <==> event is Playing
            &&& kind == EventType::PlaybackPaused <==> event is Paused
            &&& kind == EventType::PlaybackLoading <==> event is Loading
            &&& kind == EventType::PlaybackStopped <==> event is Stopped
            &&& kind == EventType::PlaybackUnavailable <==> event is Unavailable
            &&& kind == EventType::EndOfTrack <==> event is EndOfTrack
            &&& kind == EventType::Seeked <==> event is Seeked
            &&& kind == EventType::PositionCorrection <==> event is PositionCorrection
            &&& kind == EventType::PositionChanged <==> event is PositionChanged
            &&& kind == EventType::TrackChanged <==> event is TrackChanged
            &&& kind == EventType::VolumeChanged <==> event is VolumeChanged
            &&& kind == EventType::ShuffleChanged <==> event is ShuffleChanged
            &&& kind == EventType::RepeatChanged <==> event is RepeatChanged
            &&& kind == EventType::AutoPlayChanged <==> event is AutoPlayChanged
            &&& kind == EventType::ExplicitFilterChanged <==> event is FilterExplicitContentChanged
            &&& kind == EventType::SessionConnected <==> event is SessionConnected
            &&& kind == EventType::SessionDisconnected <==> event is SessionDisconnected
            &&& kind == EventType::ClientChanged <==> event is SessionClientChanged
            &&& kind == EventType::AddedToQueue <==> event is AddedToQueue
            &&& kind == EventType::Preloading <==> event is Preloading
            &&& kind == EventType::TimeToPreloadNextTrack <==> event is TimeToPreloadNextTrack
            &&& kind == EventType::PlayRequestIdChanged <==> event is PlayRequestIdChanged
        }),
{
}

/// The views show each field as it is.
pub proof fn law_views_show_every_field(
    record: EventRecord,
    state: RunnerState,
    track: TrackMetadataInternal,
)
    ensures
        ({
            let v = record.view();
            &&& v.event_type == record.event_type && v.play_request_id == record.play_request_id
            &&& v.position_ms == record.position_ms && v.duration_ms == record.duration_ms
            &&& v.volume == record.volume && v.is_playing == record.is_playing
            &&& v.shuffle == record.shuffle && v.repeat_mode == record.repeat_mode
            &&& v.auto_play == record.auto_play && v.filter_explicit == record.filter_explicit
            &&& v.audio_generation == record.audio_generation
            &&& v.was_preloaded == record.was_preloaded
            &&& record.track_uri matches Some(uri) ==> v.track_uri == Some(uri@)
            &&& record.track_uri is None ==> v.track_uri is None
            &&& record.session_user matches Some(user) ==> v.session_user == Some(user@)
            &&& record.session_user is None ==> v.session_user is None
            &&& record.client_name matches Some(name) ==> v.client_name == Some(name@)
            &&& record.client_name is None ==> v.client_name is None
            &&& record.track matches Some(shown) ==> v.track == Some(shown.view())
            &&& record.track is None ==> v.track is None
        }),
        ({
            let v = state.view();
            &&& v.is_playing == state.is_playing && v.shuffle == state.shuffle
            &&& v.repeat == state.repeat && v.position_ms == state.position_ms
            &&& v.sync_write_pos == state.sync_write_pos && v.duration_ms == state.duration_ms
            &&& v.volume == state.volume && v.sample_rate == state.sample_rate
            &&& v.bytes_per_sample == state.bytes_per_sample
            &&& v.audio_generation == state.audio_generation
            &&& state.current_track matches Some(shown) ==> v.current_track == Some(shown.view())
            &&& state.current_track is None ==> v.current_track is None
        }),
        ({
            let v = track.view();
            &&& v.uri == track.uri@ && v.name == track.name@ && v.artist == track.artist@
            &&& v.album == track.album@ && v.cover_url == track.cover_url@
            &&& v.duration_ms == track.duration_ms
        }),
{
}

/// Each event about a place is told and remembered with the position that it
/// carries itself.
pub proof fn law_positions_are_those_of_the_events(
    state: StateView,
    event: PlayerEvent,
    write_pos: usize,
)
    ensures
        ({
            let seen = told(state.audio_generation, event);
            let after = remembered(state, event, write_pos);
            &&& event matches PlayerEvent::Playing { play_request_id, track_id, position_ms } ==> {
                &&& seen.position_ms == position_ms && after.position_ms == position_ms
                &&& seen.play_request_id == play_request_id
                &&& is_told_as(track_id@, seen.track_uri)
            }
            &&& event matches PlayerEvent::Paused { play_request_id, track_id, position_ms } ==> {
                &&& seen.position_ms == position_ms && after.position_ms == position_ms
                &&& seen.play_request_id == play_request_id
                &&& is_told_as(track_id@, seen.track_uri)
            }
            &&& event matches PlayerEvent::Loading { play_request_id, track_id, position_ms } ==> {
                &&& seen.position_ms == position_ms && after.position_ms == position_ms
                &&& seen.play_request_id == play_request_id
                &&& is_told_as(track_id@, seen.track_uri)
            }
            &&& event matches PlayerEvent::Seeked {
                play_request_id,
                track_id,
                position_ms,
                audio_generation,
            } ==> {
                &&& seen.position_ms == position_ms && after.position_ms == position_ms
                &&& seen.play_request_id == play_request_id
                &&& is_told_as(track_id@, seen.track_uri)
                &&& seen.audio_generation == audio_generation
            }
            &&& event matches PlayerEvent::PositionCorrection {
                play_request_id,
                track_id,
                position_ms,
            } ==> {
                &&& seen.position_ms == position_ms && after.position_ms == position_ms
                &&& seen.play_request_id == play_request_id
                &&& is_told_as(track_id@, seen.track_uri)
            }
            &&& event matches PlayerEvent::PositionChanged {
                play_request_id,
                track_id,
                position_ms,
            } ==> {
                &&& seen.position_ms == position_ms && after.position_ms == position_ms
                &&& seen.play_request_id == play_request_id
                &&& is_told_as(track_id@, seen.track_uri)
            }
        }),
{
}

} // verus!
