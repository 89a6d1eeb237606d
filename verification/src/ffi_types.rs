//! The values that cross the C interface.
use vstd::prelude::*;

verus! {

/// The bitrate that playback prefers.
#[derive(Debug, Clone, Copy, PartialEq, Eq, Structural)]
pub enum Bitrate {
    B96,
    B160,
    B320,
}

impl Bitrate {
    /// The number that stands for a bitrate on the C side: its kilobits per
    /// second.
    pub open spec fn raw(self) -> i32 {
        match self {
            Bitrate::B96 => 96,
            Bitrate::B160 => 160,
            Bitrate::B320 => 320,
        }
    }

    /// The number that stands for this bitrate on the C side.
    pub fn as_raw(&self) -> (value: i32)
        ensures
            value == self.raw(),
    {
        match self {
            Bitrate::B96 => 96,
            Bitrate::B160 => 160,
            Bitrate::B320 => 320,
        }
    }

    /// The bitrate that a number from the C side stands for.
    pub fn from_raw(value: i32) -> (bitrate: Option<Bitrate>)
        ensures
            match bitrate {
                Some(b) => b.raw() == value,
                None => forall|b: Bitrate| #[trigger] b.raw() != value,
            },
    {
        match value {
            96 => Some(Bitrate::B96),
            160 => Some(Bitrate::B160),
            320 => Some(Bitrate::B320),
            _ => None,
        }
    }
}

/// The sample format of the audio output.
#[derive(Debug, Clone, Copy, PartialEq, Eq, Structural)]
pub enum AudioFormat {
    F64,
    F32,
    S32,
    S24,
    S24_3,
    S16,
}

impl AudioFormat {
    /// The number of bytes that a sample takes in this format.
    pub open spec fn sample_bytes(self) -> nat {
        match self {
            AudioFormat::F64 => 8,
            AudioFormat::F32 => 4,
            AudioFormat::S32 => 4,
            AudioFormat::S24 => 4,
            AudioFormat::S24_3 => 3,
            AudioFormat::S16 => 2,
        }
    }

    /// The number of bytes that a sample takes in this format.
    pub fn bytes_per_sample(&self) -> (bytes: u8)
        ensures
            bytes == self.sample_bytes(),
    {
        match self {
            AudioFormat::F64 => 8,
            AudioFormat::F32 | AudioFormat::S32 | AudioFormat::S24 => 4,
            AudioFormat::S24_3 => 3,
            AudioFormat::S16 => 2,
        }
    }
}

/// What an event that is reported to the frontend is about. The position of a
/// variant is its number on the C side.
#[derive(Debug, Clone, Copy, PartialEq, Eq, Structural)]
pub enum EventType {
    LogMessage,
    SessionConnected,
    SessionDisconnected,
    AuthNeeded,
    TrackChanged,
    PlaybackPaused,
    PlaybackResumed,
    PlaybackStopped,
    VolumeChanged,
    Panic,
    ShuffleChanged,
    RepeatChanged,
    AutoPlayChanged,
    Seeked,
    PositionCorrection,
    PlaybackLoading,
    PlaybackUnavailable,
    EndOfTrack,
    ClientChanged,
    ExplicitFilterChanged,
    PlayRequestIdChanged,
    AddedToQueue,
    Preloading,
    TimeToPreloadNextTrack,
    PositionChanged,
    PlaybackKeyUnavailable,
    PlaybackAuthorizationRejected,
}

/// A bitrate goes by its kilobits per second on the C side, and no two go by the
/// same number.
pub proof fn law_bitrates_go_by_their_kilobits(one: Bitrate, other: Bitrate)
    ensures
        one.raw() == 96 <==> one is B96,
        one.raw() == 160 <==> one is B160,
        one.raw() == 320 <==> one is B320,
        one.raw() == other.raw() ==> one == other,
{
}

/// A sample takes eight bytes in the widest format and two in the narrowest. The
/// packed form of 24 bits takes one byte less than the one in a word, which takes
/// as many as the other forms of 32 bits.
pub proof fn law_samples_take_the_bytes_of_their_format(format: AudioFormat)
    ensures
        2 <= format.sample_bytes() <= 8,
        format.sample_bytes() == 8 <==> format is F64,
        format.sample_bytes() == 4 <==> format is F32 || format is S32 || format is S24,
        format.sample_bytes() == 3 <==> format is S24_3,
        format.sample_bytes() == 2 <==> format is S16,
{
}

} // verus!
