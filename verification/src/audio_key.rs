//! Audio keys: the packets that ask for them, the replies that bring them, and
//! who waits for which reply.
use crate::encoding;
use crate::errors::ErrorKind;
use crate::ids::{FileId, SpotifyId};
use crate::text;
use bytes::Bytes;
use std::collections::HashMap;
use vstd::prelude::*;

verus! {

/// How long a reply is waited for, in milliseconds.
pub const KEY_RESPONSE_TIMEOUT_MS: u64 = 1_500;

/// The key that an audio file is encrypted with.
#[derive(Clone, Copy, Debug, PartialEq, Eq, Hash)]
pub struct AudioKey(pub [u8; 16]);

/// Why there is no key.
#[derive(Clone, Copy, Debug, PartialEq, Eq, Structural)]
pub enum AudioKeyError {
    AesKey,
    Channel,
    Packet(u8),
    Sequence(u32),
    Timeout,
}

impl AudioKeyError {
    /// The message of the error.
    pub open spec fn text(self) -> Seq<char> {
        match self {
            AudioKeyError::AesKey => "audio key error"@,
            AudioKeyError::Channel => "other end of channel disconnected"@,
            AudioKeyError::Packet(cmd) => "unexpected packet type "@ + text::decimal(cmd as nat),
            AudioKeyError::Sequence(seq) => "sequence "@ + text::decimal(seq as nat)
                + " not pending"@,
            AudioKeyError::Timeout => "audio key response timeout"@,
        }
    }

    /// The message of the error.
    pub fn message(&self) -> (message: String)
        ensures
            message@ == self.text(),
    {
        match self {
            AudioKeyError::AesKey => "audio key error".to_owned(),
            AudioKeyError::Channel => "other end of channel disconnected".to_owned(),
            AudioKeyError::Packet(cmd) => {
                let number = text::to_decimal(*cmd as u64);
                text::concat("unexpected packet type ", number.as_str())
            },
            AudioKeyError::Sequence(seq) => {
                let number = text::to_decimal(*seq as u64);
                text::concat3("sequence ", number.as_str(), " not pending")
            },
            AudioKeyError::Timeout => "audio key response timeout".to_owned(),
        }
    }

    /// The kind of the error.
    pub fn kind(&self) -> (kind: ErrorKind)
        ensures
            kind == match *self {
                AudioKeyError::AesKey => ErrorKind::Unavailable,
                AudioKeyError::Packet(_) => ErrorKind::Unimplemented,
                _ => ErrorKind::Aborted,
            },
    {
        match self {
            AudioKeyError::AesKey => ErrorKind::Unavailable,
            AudioKeyError::Packet(_) => ErrorKind::Unimplemented,
            _ => ErrorKind::Aborted,
        }
    }
}

/// The packets that have to do with keys, and all others by their number.
#[derive(Clone, Copy, Debug, PartialEq, Eq, Structural)]
pub enum PacketType {
    RequestKey,
    AesKey,
    AesKeyError,
    Other(u8),
}

impl PacketType {
    /// The number of the packet type.
    pub open spec fn number(self) -> u8 {
        match self {
            PacketType::RequestKey => 0x0c,
            PacketType::AesKey => 0x0d,
            PacketType::AesKeyError => 0x0e,
            PacketType::Other(cmd) => cmd,
        }
    }

    /// The number of the packet type.
    pub fn as_raw(&self) -> (value: u8)
        ensures
            value == self.number(),
    {
        match self {
            PacketType::RequestKey => 0x0c,
            PacketType::AesKey => 0x0d,
            PacketType::AesKeyError => 0x0e,
            PacketType::Other(cmd) => *cmd,
        }
    }
}

/// What a reply brings to whoever waits for it.
#[derive(Clone, Copy, Debug)]
pub enum KeyReply {
    Key(AudioKey),
    Refused,
}

/// How a request goes on.
#[derive(Debug)]
pub enum KeyRequest {
    /// The frontend had the key.
    Found(AudioKey),
    /// The packet is to be sent, and the reply to be waited for.
    Send { sequence: u32, packet: Vec<u8> },
}

/// What a wait for a reply came to.
#[derive(Clone, Copy, Debug)]
pub enum KeyResponse {
    TimedOut,
    /// Nobody will answer any more.
    Disconnected,
    Reply(KeyReply),
}

/// The packet that asks for the key of a file of a track.
pub open spec fn request_bytes(sequence: u32, track: Seq<u8>, file: Seq<u8>) -> Seq<u8> {
    file + track + encoding::be_bytes_u32(sequence) + encoding::be_bytes_u16(0)
}

/// The number of the request that a packet answers.
pub open spec fn answered(packet: Seq<u8>) -> u32 {
    encoding::be_u32(packet.take(4)) as u32
}

/// Whether a packet is as long as what it claims to be: it has a number, and if
/// somebody waits under that number, a key or the code of an error.
pub open spec fn is_complete<S>(pending: Map<u32, S>, cmd: PacketType, packet: Seq<u8>) -> bool {
    &&& packet.len() >= 4
    &&& pending.contains_key(answered(packet)) ==> {
        &&& cmd == PacketType::AesKey ==> packet.len() == 20
        &&& cmd == PacketType::AesKeyError ==> packet.len() >= 6
    }
}

/// Whether a packet was handed to whoever waited for it, or came to the error
/// that it must come to.
pub open spec fn is_dispatched<S>(
    before: Map<u32, S>,
    after: Map<u32, S>,
    cmd: PacketType,
    packet: Seq<u8>,
    result: Result<(S, KeyReply), AudioKeyError>,
) -> bool {
    let sequence = answered(packet);
    let waits = before.contains_key(sequence);
    &&& after == before.remove(sequence)
    &&& match result {
        Ok((receiver, KeyReply::Key(key))) => {
            &&& waits && cmd == PacketType::AesKey
            &&& receiver == before[sequence]
            &&& key.0@ == packet.skip(4)
        },
        Ok((receiver, KeyReply::Refused)) => {
            &&& waits && cmd == PacketType::AesKeyError
            &&& receiver == before[sequence]
        },
        Err(AudioKeyError::Sequence(number)) => !waits && number == sequence,
        Err(AudioKeyError::Packet(number)) => {
            &&& waits && cmd != PacketType::AesKey && cmd != PacketType::AesKeyError
            &&& number == cmd.number()
        },
        Err(_) => false,
    }
}

/// Whether a request is the one that is due: a key that the frontend has is taken
/// at once, and else the receiver waits under the next number.
pub open spec fn is_requested<S>(
    sequence: u32,
    pending: Map<u32, S>,
    frontend: Option<AudioKey>,
    receiver: S,
    track: Seq<u8>,
    file: Seq<u8>,
    request: KeyRequest,
    next_sequence: u32,
    next_pending: Map<u32, S>,
) -> bool {
    match request {
        KeyRequest::Found(key) => {
            &&& frontend == Some(key)
            &&& next_sequence == sequence
            &&& next_pending == pending
        },
        KeyRequest::Send { sequence: number, packet } => {
            &&& frontend is None
            &&& number == sequence
            &&& packet@ == request_bytes(number, track, file)
            &&& next_pending == pending.insert(number, receiver)
            &&& next_sequence == if number == u32::MAX {
                0
            } else {
                number + 1
            }
        },
    }
}

/// The requests that were sent. `S` is what a reply is handed to.
pub struct AudioKeyManager<S> {
    pub sequence: u32,
    pub pending: HashMap<u32, S>,
}

impl<S> AudioKeyManager<S> {
    /// A manager that has sent nothing.
    pub fn new() -> (manager: AudioKeyManager<S>)
        ensures
            manager.sequence == 0,
            manager.pending@ == Map::<u32, S>::empty(),
    {
        AudioKeyManager { sequence: 0, pending: HashMap::new() }
    }

    /// Begins to ask for a key. A key that the frontend has is taken at once;
    /// else the receiver waits under the next number.
    pub fn request(
        &mut self,
        frontend: Option<AudioKey>,
        receiver: S,
        track: SpotifyId,
        file: FileId,
    ) -> (request: KeyRequest)
        ensures
            is_requested(
                old(self).sequence,
                old(self).pending@,
                frontend,
                receiver,
                track.0@,
                file.0@,
                request,
                final(self).sequence,
                final(self).pending@,
            ),
            request is Found ==> *final(self) == *old(self),
    {
        broadcast use vstd::std_specs::hash::group_hash_axioms;

        if let Some(key) = frontend {
            return KeyRequest::Found(key);
        }
        let sequence: u32 = self.sequence;
        self.sequence = sequence.wrapping_add(1);
        self.pending.insert(sequence, receiver);
        KeyRequest::Send { sequence, packet: key_request(sequence, track, file) }
    }

    /// Hands a reply to whoever waits for it. The result is the receiver and
    /// what it is to get. A receiver leaves the list with the first packet that
    /// bears its number, whatever the packet is.
    pub fn dispatch(&mut self, cmd: PacketType, data: Bytes) -> (result: Result<
        (S, KeyReply),
        AudioKeyError,
    >)
        requires
            is_complete(old(self).pending@, cmd, encoding::buffer_contents(data)),
        ensures
            final(self).sequence == old(self).sequence,
            is_dispatched(
                old(self).pending@,
                final(self).pending@,
                cmd,
                encoding::buffer_contents(data),
                result,
            ),
    {
        broadcast use vstd::std_specs::hash::group_hash_axioms;

        let mut rest = data;
        let head = encoding::buffer_split_to(&mut rest, 4);
        let sequence: u32 = encoding::read_be_u32(encoding::buffer_as_slice(&head));
        let ghost before = self.pending@;
        let receiver = match self.pending.remove(&sequence) {
            Some(receiver) => receiver,
            None => {
                assert(before.remove(sequence) =~= before);
                return Err(AudioKeyError::Sequence(sequence));
            },
        };
        match cmd {
            PacketType::AesKey => {
                let bytes = encoding::buffer_as_slice(&rest);
                let mut key: [u8; 16] = [0; 16];
                let mut i: usize = 0;
                while i < 16
                    invariant
                        i <= 16,
                        bytes@.len() == 16,
                        forall|k: int| 0 <= k < i ==> key@[k] == bytes@[k],
                    decreases 16 - i,
                {
                    key[i] = bytes[i];
                    i = i + 1;
                }
                assert(key@ =~= bytes@);
                Ok((receiver, KeyReply::Key(AudioKey(key))))
            },
            PacketType::AesKeyError => Ok((receiver, KeyReply::Refused)),
            _ => Err(AudioKeyError::Packet(cmd.as_raw())),
        }
    }

    /// Hands a reply to whoever waits for it, unless the packet is not as long
    /// as what it claims to be: then nothing comes of it.
    pub fn try_dispatch(&mut self, cmd: PacketType, data: Bytes) -> (result: Option<
        Result<(S, KeyReply), AudioKeyError>,
    >)
        ensures
            final(self).sequence == old(self).sequence,
            result is Some <==> is_complete(
                old(self).pending@,
                cmd,
                encoding::buffer_contents(data),
            ),
            match result {
                Some(outcome) => is_dispatched(
                    old(self).pending@,
                    final(self).pending@,
                    cmd,
                    encoding::buffer_contents(data),
                    outcome,
                ),
                None => final(self).pending@ == old(self).pending@,
            },
    {
        broadcast use vstd::std_specs::hash::group_hash_axioms;

        let bytes = encoding::buffer_as_slice(&data);
        if bytes.len() < 4 {
            return None;
        }
        let sequence: u32 = encoding::read_be_u32(bytes);
        assert(sequence == answered(bytes@));
        if self.pending.contains_key(&sequence) {
            if cmd == PacketType::AesKey && bytes.len() != 20 {
                return None;
            }
            if cmd == PacketType::AesKeyError && bytes.len() < 6 {
                return None;
            }
        }
        Some(self.dispatch(cmd, data))
    }
}

/// The packet that asks for the key of a file of a track.
fn key_request(sequence: u32, track: SpotifyId, file: FileId) -> (packet: Vec<u8>)
    ensures
        packet@ == request_bytes(sequence, track.0@, file.0@),
{
    let mut packet: Vec<u8> = Vec::new();
    packet.extend_from_slice(file.0.as_slice());
    assert(packet@ =~= file.0@);
    packet.extend_from_slice(track.0.as_slice());
    assert(packet@ =~= file.0@ + track.0@);
    encoding::write_be_u32(&mut packet, sequence);
    encoding::write_be_u16(&mut packet, 0x0000);
    packet
}

/// What a wait for a reply comes to.
pub open spec fn outcome_of(response: KeyResponse) -> Result<AudioKey, AudioKeyError> {
    match response {
        KeyResponse::TimedOut => Err(AudioKeyError::Timeout),
        KeyResponse::Disconnected => Err(AudioKeyError::Channel),
        KeyResponse::Reply(KeyReply::Refused) => Err(AudioKeyError::AesKey),
        KeyResponse::Reply(KeyReply::Key(key)) => Ok(key),
    }
}

/// What a request comes to: the key, which is then to be saved with the
/// frontend, or the error.
pub fn key_outcome(response: KeyResponse) -> (result: Result<AudioKey, AudioKeyError>)
    ensures
        result == outcome_of(response),
{
    match response {
        KeyResponse::TimedOut => Err(AudioKeyError::Timeout),
        KeyResponse::Disconnected => Err(AudioKeyError::Channel),
        KeyResponse::Reply(KeyReply::Refused) => Err(AudioKeyError::AesKey),
        KeyResponse::Reply(KeyReply::Key(key)) => Ok(key),
    }
}

/// A reply finds the request that it answers: a packet that starts with the
/// number of a request is read as bearing that number, and what follows the
/// number is the key.
pub proof fn law_reply_finds_its_request(sequence: u32, key: Seq<u8>)
    ensures
        ({
            let packet = encoding::be_bytes_u32(sequence) + key;
            &&& encoding::be_u32(packet.take(4)) == sequence
            &&& packet.skip(4) == key
        }),
{
    let packet = encoding::be_bytes_u32(sequence) + key;
    encoding::law_big_endian_round_trip(sequence, Seq::empty());
    assert(packet.take(4) =~= encoding::be_bytes_u32(sequence) + Seq::empty());
    assert(packet.skip(4) =~= key);
}

/// A request names its file, its track and its number: they can be read off the
/// packet, which has forty-two bytes.
pub proof fn law_request_is_readable(sequence: u32, track: Seq<u8>, file: Seq<u8>)
    requires
        track.len() == 16,
        file.len() == 20,
    ensures
        ({
            let packet = request_bytes(sequence, track, file);
            &&& packet.len() == 42
            &&& packet.take(20) == file
            &&& packet.subrange(20, 36) == track
            &&& encoding::be_u32(packet.skip(36)) == sequence
        }),
{
    let packet = request_bytes(sequence, track, file);
    assert(packet.take(20) =~= file);
    assert(packet.subrange(20, 36) =~= track);
    assert(packet.skip(36) =~= encoding::be_bytes_u32(sequence) + encoding::be_bytes_u16(0));
    encoding::law_big_endian_round_trip(sequence, encoding::be_bytes_u16(0));
}

/// A packet is answered once and by the right one: whoever waited under its
/// number is off the list, all others stay on it, and nobody else is handed
/// anything. A packet under a number that nobody waits for comes to an error with
/// that number and changes nothing.
pub proof fn law_a_reply_goes_to_whoever_waits<S>(
    before: Map<u32, S>,
    after: Map<u32, S>,
    cmd: PacketType,
    packet: Seq<u8>,
    result: Result<(S, KeyReply), AudioKeyError>,
    number: u32,
)
    requires
        is_dispatched(before, after, cmd, packet, result),
        encoding::be_u32(packet.take(4)) == number,
    ensures
        !after.contains_key(number),
        forall|other: u32|
            other != number ==> (#[trigger] after.contains_key(other) == before.contains_key(other)
                && after[other] == before[other]),
        result is Ok ==> before.contains_key(number) && result->Ok_0.0 == before[number],
        !before.contains_key(number) ==> result == Err::<(S, KeyReply), AudioKeyError>(
            AudioKeyError::Sequence(number),
        ) && after == before,
        before.contains_key(number) && cmd == PacketType::AesKey ==> (result matches Ok(
            (receiver, KeyReply::Key(key)),
        ) && key.0@ == packet.skip(4)),
        before.contains_key(number) && cmd == PacketType::AesKeyError ==> (result matches Ok(
            (receiver, reply),
        ) && reply is Refused),
        before.contains_key(number) && cmd is RequestKey ==> result == Err::<
            (S, KeyReply),
            AudioKeyError,
        >(AudioKeyError::Packet(12)),
        cmd matches PacketType::Other(raw) ==> before.contains_key(number) ==> result == Err::<
            (S, KeyReply),
            AudioKeyError,
        >(AudioKeyError::Packet(raw)),
{
    if !before.contains_key(number) {
        assert(before.remove(number) =~= before);
    }
}

/// A packet that nobody waits for needs a number and no more; one that somebody
/// waits for brings a whole key, or the code of an error.
pub proof fn law_packets_have_their_length<S>(
    pending: Map<u32, S>,
    cmd: PacketType,
    packet: Seq<u8>,
)
    ensures
        is_complete(pending, cmd, packet) ==> packet.len() >= 4,
        packet.len() >= 4 && !pending.contains_key(answered(packet)) ==> is_complete(
            pending,
            cmd,
            packet,
        ),
        packet.len() >= 4 && pending.contains_key(answered(packet)) ==> {
            &&& cmd == PacketType::AesKey ==> (is_complete(pending, cmd, packet) <==> packet.len()
                == 4 + 16)
            &&& cmd == PacketType::AesKeyError ==> (is_complete(pending, cmd, packet)
                <==> packet.len() >= 4 + 2)
            &&& cmd != PacketType::AesKey && cmd != PacketType::AesKeyError ==> is_complete(
                pending,
                cmd,
                packet,
            )
        },
        PacketType::RequestKey.number() == 12,
        PacketType::AesKey.number() == 13,
        PacketType::AesKeyError.number() == 14,
        cmd matches PacketType::Other(raw) ==> cmd.number() == raw,
{
}

/// A key that was asked for reaches whoever asked: a packet that bears the number
/// of the request and a key hands the receiver of that request that key, whatever
/// else is waited for, and the request comes to the key. What is sent names the file,
/// the track and that number. A key that the frontend
/// has is taken at once, and nothing is asked.
pub proof fn law_a_key_reaches_whoever_asked<S>(
    sequence: u32,
    pending: Map<u32, S>,
    frontend: Option<AudioKey>,
    receiver: S,
    track: Seq<u8>,
    file: Seq<u8>,
    request: KeyRequest,
    next_sequence: u32,
    next_pending: Map<u32, S>,
    after: Map<u32, S>,
    key: Seq<u8>,
    result: Result<(S, KeyReply), AudioKeyError>,
)
    requires
        is_requested(
            sequence,
            pending,
            frontend,
            receiver,
            track,
            file,
            request,
            next_sequence,
            next_pending,
        ),
        is_dispatched(
            next_pending,
            after,
            PacketType::AesKey,
            encoding::be_bytes_u32(sequence) + key,
            result,
        ),
    ensures
        request is Found <==> frontend is Some,
        request matches KeyRequest::Found(found) ==> frontend == Some(found) && next_pending
            == pending,
        request is Send ==> {
            &&& result matches Ok((who, reply)) && who == receiver && (reply matches KeyReply::Key(
                found,
            ) && found.0@ == key && outcome_of(KeyResponse::Reply(reply)) == Ok::<
                AudioKey,
                AudioKeyError,
            >(found))
            &&& !after.contains_key(sequence)
            &&& next_sequence != sequence
            &&& track.len() == 16 && file.len() == 20 ==> (request matches KeyRequest::Send {
                sequence: number,
                packet,
            } && number == sequence && packet@.take(20) == file && packet@.subrange(20, 36) == track
                && encoding::be_u32(packet@.skip(36)) == sequence)
            &&& forall|other: u32|
                other != sequence ==> #[trigger] next_pending.contains_key(other)
                    == pending.contains_key(other)
        },
{
    law_reply_finds_its_request(sequence, key);
    if track.len() == 16 && file.len() == 20 {
        law_request_is_readable(sequence, track, file);
    }
}

/// What a wait comes to is the key, or the reason why there is none.
pub proof fn law_a_wait_comes_to_a_key_or_a_reason(response: KeyResponse)
    ensures
        outcome_of(response) is Ok <==> (response matches KeyResponse::Reply(reply) && reply is Key),
        response matches KeyResponse::Reply(KeyReply::Key(key)) ==> outcome_of(response) == Ok::<
            AudioKey,
            AudioKeyError,
        >(key),
        response is TimedOut ==> outcome_of(response)->Err_0 == AudioKeyError::Timeout,
        response is Disconnected ==> outcome_of(response)->Err_0 == AudioKeyError::Channel,
        response matches KeyResponse::Reply(KeyReply::Refused) ==> outcome_of(response)->Err_0
            == AudioKeyError::AesKey,
{
}

/// A message says what is wrong: the packet type and the number of a request can
/// be read off it.
pub proof fn law_messages_name_their_cause(cmd: u8, sequence: u32)
    ensures
        ({
            let shown = AudioKeyError::Packet(cmd).text();
            &&& shown.take(23) == "unexpected packet type "@
            &&& text::unsigned_number(shown.skip(23), u8::MAX as nat) == Some(cmd as nat)
        }),
        ({
            let shown = AudioKeyError::Sequence(sequence).text();
            let n = shown.len() as int;
            &&& n > 21
            &&& shown.take(9) == "sequence "@
            &&& text::unsigned_number(shown.subrange(9, n - 12), u32::MAX as nat) == Some(
                sequence as nat,
            )
            &&& shown.skip(n - 12) == " not pending"@
        }),
        AudioKeyError::AesKey.text() == "audio key error"@,
        AudioKeyError::Channel.text() == "other end of channel disconnected"@,
        AudioKeyError::Timeout.text() == "audio key response timeout"@,
{
    reveal_strlit("unexpected packet type ");
    reveal_strlit("sequence ");
    reveal_strlit(" not pending");
    text::law_decimal_round_trip(cmd as nat, u8::MAX as nat);
    text::law_decimal_round_trip(sequence as nat, u32::MAX as nat);
    text::lemma_no_nul_decimal(sequence as nat);
    let first = AudioKeyError::Packet(cmd).text();
    assert(first.take(23) =~= "unexpected packet type "@);
    assert(first.skip(23) =~= text::decimal(cmd as nat));
    let second = AudioKeyError::Sequence(sequence).text();
    let n = second.len() as int;
    assert(second.take(9) =~= "sequence "@);
    assert(second.subrange(9, n - 12) =~= text::decimal(sequence as nat));
    assert(second.skip(n - 12) =~= " not pending"@);
}

} // verus!
