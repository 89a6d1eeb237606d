//! Identifiers of audio files and tracks.
use crate::encoding;
use vstd::prelude::*;

verus! {

/// The identifier of an audio file or an image.
#[derive(Clone, Copy, Debug, PartialEq, Eq)]
pub struct FileId(pub [u8; 20]);

/// The identifier of a track.
#[derive(Clone, Copy, Debug, PartialEq, Eq)]
pub struct SpotifyId(pub [u8; 16]);

impl FileId {
    /// The identifier with the given bytes.
    pub fn from_raw(bytes: &Vec<u8>) -> (id: FileId)
        requires
            bytes@.len() == 20,
        ensures
            id.0@ == bytes@,
    {
        let mut raw: [u8; 20] = [0; 20];
        let mut i: usize = 0;
        while i < 20
            invariant
                i <= 20,
                bytes@.len() == 20,
                forall|k: int| 0 <= k < i ==> raw@[k] == bytes@[k],
            decreases 20 - i,
        {
            raw[i] = bytes[i];
            i = i + 1;
        }
        assert(raw@ =~= bytes@);
        FileId(raw)
    }

    /// The identifier in forty lower case hexadecimal digits.
    pub fn to_base16(&self) -> (text: String)
        ensures
            text@ == encoding::lower_hex(self.0@),
            text@.len() == 40,
    {
        encoding::hex_encode(self.0.as_slice())
    }
}

/// Reads the hexadecimal form of a file identifier; nothing comes of a text
/// that is not hexadecimal.
pub fn parse_file_id_hex(text: &str) -> (id: Option<FileId>)
    requires
        encoding::is_hex(text@) ==> text@.len() == 40,
    ensures
        id is Some <==> encoding::is_hex(text@),
        id matches Some(file) ==> file.0@ == encoding::hex_bytes(text@),
{
    match encoding::hex_decode(text) {
        Ok(bytes) => Some(FileId::from_raw(&bytes)),
        Err(_) => None,
    }
}

/// The hexadecimal form of a file identifier reads back as that identifier.
pub proof fn law_file_id_round_trip(file: FileId)
    ensures
        encoding::is_hex(encoding::lower_hex(file.0@)),
        encoding::hex_bytes(encoding::lower_hex(file.0@)) == file.0@,
{
    encoding::law_hex_round_trip(file.0@);
}

} // verus!
