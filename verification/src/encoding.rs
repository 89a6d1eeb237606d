//! Hexadecimal, Base64, SHA-1 and big-endian integers, as the crates `hex`,
//! `base64`, `sha1`, `byteorder` and `bytes` compute them.
use base64::Engine;
use byteorder::{BigEndian, ByteOrder, WriteBytesExt};
use bytes::Bytes;
use sha1::Digest;
use vstd::prelude::*;
use vstd::utf8::*;

verus! {

/// The lower case hexadecimal digit for `digit`.
pub open spec fn lower_hex_char(digit: int) -> char {
    if digit < 10 {
        (48 + digit) as u32 as char
    } else {
        (87 + digit) as u32 as char
    }
}

/// Two lower case hexadecimal digits for each byte.
pub open spec fn lower_hex(bytes: Seq<u8>) -> Seq<char> {
    Seq::new(
        2 * bytes.len(),
        |i: int|
            if i % 2 == 0 {
                lower_hex_char((bytes[i / 2] / 16) as int)
            } else {
                lower_hex_char((bytes[i / 2] % 16) as int)
            },
    )
}

/// `hex::encode` writes each byte as two lower case hexadecimal digits.
#[verifier::external_body]
pub(crate) fn hex_encode(bytes: &[u8]) -> (text: String)
    requires
        2 * bytes@.len() <= isize::MAX,
    ensures
        text@ == lower_hex(bytes@),
{
    hex::encode(bytes)
}

/// The value of a hexadecimal digit of either case.
pub open spec fn hex_value(c: char) -> Option<int> {
    if '0' <= c <= '9' {
        Some(c as u32 - 48)
    } else if 'a' <= c <= 'f' {
        Some(c as u32 - 87)
    } else if 'A' <= c <= 'F' {
        Some(c as u32 - 55)
    } else {
        None
    }
}

/// Whether `text` is made of pairs of hexadecimal digits.
pub open spec fn is_hex(text: Seq<char>) -> bool {
    &&& text.len() % 2 == 0
    &&& forall|i: int| 0 <= i < text.len() ==> #[trigger] hex_value(text[i]) is Some
}

/// The bytes that the pairs of hexadecimal digits in `text` stand for.
pub open spec fn hex_bytes(text: Seq<char>) -> Seq<u8> {
    Seq::new(
        text.len() / 2,
        |i: int| (16 * hex_value(text[2 * i])->0 + hex_value(text[2 * i + 1])->0) as u8,
    )
}

/// The message of the error with which `hex::decode` rejects a text.
pub uninterp spec fn hex_error_message(text: Seq<char>) -> Seq<char>;

/// `hex::decode` reads pairs of hexadecimal digits of either case, and rejects
/// a text of odd length or with any other character.
#[verifier::external_body]
pub(crate) fn hex_decode(text: &str) -> (result: Result<Vec<u8>, String>)
    ensures
        result is Ok <==> is_hex(text@),
        result matches Ok(bytes) ==> bytes@ == hex_bytes(text@),
        result matches Err(message) ==> message@ == hex_error_message(text@),
{
    hex::decode(text).map_err(|error| error.to_string())
}

/// The SHA-1 digest of `data`.
pub uninterp spec fn sha1_digest(data: Seq<u8>) -> Seq<u8>;

/// `sha1::Sha1::digest` computes a digest, which has twenty bytes.
#[verifier::external_body]
pub(crate) fn sha1(data: &[u8]) -> (digest: Vec<u8>)
    ensures
        digest@ == sha1_digest(data@),
        digest@.len() == 20,
{
    sha1::Sha1::digest(data).to_vec()
}

/// The lower case hexadecimal SHA-1 digest of `bytes`.
pub fn sha1_hex(bytes: &[u8]) -> (text: String)
    ensures
        text@ == lower_hex(sha1_digest(bytes@)),
        text@.len() == 40,
{
    hex_encode(sha1(bytes).as_slice())
}

/// The character of the standard Base64 alphabet for a number below 64.
pub open spec fn base64_char(value: int) -> char {
    if value < 26 {
        (65 + value) as u32 as char
    } else if value < 52 {
        (71 + value) as u32 as char
    } else if value < 62 {
        (value - 4) as u32 as char
    } else if value == 62 {
        '+'
    } else {
        '/'
    }
}

/// The number that the three bytes from `start` on form; missing bytes count as
/// zero.
pub open spec fn base64_group(data: Seq<u8>, start: int) -> int {
    let second = if start + 1 < data.len() {
        data[start + 1] as int
    } else {
        0
    };
    let third = if start + 2 < data.len() {
        data[start + 2] as int
    } else {
        0
    };
    data[start] * 0x1_0000 + second * 0x100 + third
}

/// The number of characters of the padded Base64 form of `len` bytes.
pub open spec fn base64_len(len: nat) -> nat {
    (len + 2) / 3 * 4
}

/// Base64 of `data` in the standard alphabet: four characters for each three
/// bytes, six bits each, with padding in place of characters without data.
pub open spec fn base64_standard(data: Seq<u8>) -> Seq<char> {
    Seq::new(
        base64_len(data.len()),
        |i: int|
            {
                let start = i / 4 * 3;
                let group = base64_group(data, start);
                if i % 4 == 0 {
                    base64_char(group / 0x4_0000)
                } else if i % 4 == 1 {
                    base64_char(group / 0x1000 % 0x40)
                } else if start + (i % 4) - 1 >= data.len() {
                    '='
                } else if i % 4 == 2 {
                    base64_char(group / 0x40 % 0x40)
                } else {
                    base64_char(group % 0x40)
                }
            },
    )
}

/// `Engine::encode` of `base64::engine::general_purpose::STANDARD` writes bytes
/// in the standard alphabet with padding.
#[verifier::external_body]
pub(crate) fn base64_encode(data: &[u8]) -> (text: String)
    requires
        base64_len(data@.len()) <= isize::MAX,
    ensures
        text@ == base64_standard(data@),
{
    base64::engine::general_purpose::STANDARD.encode(data)
}

/// The number whose big-endian form is the first four bytes of `bytes`.
pub open spec fn be_u32(bytes: Seq<u8>) -> int {
    bytes[0] * 0x100_0000 + bytes[1] * 0x1_0000 + bytes[2] * 0x100 + bytes[3]
}

/// The big-endian form of `value` in four bytes.
pub open spec fn be_bytes_u32(value: u32) -> Seq<u8> {
    seq![
        (value / 0x100_0000) as u8,
        (value / 0x1_0000 % 0x100) as u8,
        (value / 0x100 % 0x100) as u8,
        (value % 0x100) as u8,
    ]
}

/// The big-endian form of `value` in two bytes.
pub open spec fn be_bytes_u16(value: u16) -> Seq<u8> {
    seq![(value / 0x100) as u8, (value % 0x100) as u8]
}

/// `BigEndian::read_u32` of the crate `byteorder` reads four bytes.
#[verifier::external_body]
pub(crate) fn read_be_u32(bytes: &[u8]) -> (value: u32)
    requires
        bytes@.len() >= 4,
    ensures
        value == be_u32(bytes@),
{
    BigEndian::read_u32(bytes)
}

/// `WriteBytesExt::write_u32::<BigEndian>` of the crate `byteorder` appends the
/// big-endian form of a number to a vector; writing to a vector does not fail.
#[verifier::external_body]
pub(crate) fn write_be_u32(data: &mut Vec<u8>, value: u32)
    ensures
        final(data)@ == old(data)@ + be_bytes_u32(value),
{
    let _ = data.write_u32::<BigEndian>(value);
}

/// `WriteBytesExt::write_u16::<BigEndian>` of the crate `byteorder` appends the
/// big-endian form of a number to a vector; writing to a vector does not fail.
#[verifier::external_body]
pub(crate) fn write_be_u16(data: &mut Vec<u8>, value: u16)
    ensures
        final(data)@ == old(data)@ + be_bytes_u16(value),
{
    let _ = data.write_u16::<BigEndian>(value);
}

/// Reading back a number from its big-endian form gives the number.
pub proof fn law_big_endian_round_trip(value: u32, rest: Seq<u8>)
    ensures
        be_u32(be_bytes_u32(value) + rest) == value,
{
    let bytes = be_bytes_u32(value) + rest;
    assert(bytes[0] == (value / 0x100_0000) as u8);
    assert(bytes[1] == (value / 0x1_0000 % 0x100) as u8);
    assert(bytes[2] == (value / 0x100 % 0x100) as u8);
    assert(bytes[3] == (value % 0x100) as u8);
}

/// A shared buffer of the crate `bytes`.
#[verifier::external_type_specification]
#[verifier::external_body]
pub struct ExBytes(Bytes);

/// The bytes in a buffer.
pub uninterp spec fn buffer_contents(buffer: Bytes) -> Seq<u8>;

/// `Bytes::split_to` takes the first `at` bytes out of a buffer.
#[verifier::external_body]
pub(crate) fn buffer_split_to(buffer: &mut Bytes, at: usize) -> (head: Bytes)
    requires
        at <= buffer_contents(*old(buffer)).len(),
    ensures
        buffer_contents(head) == buffer_contents(*old(buffer)).take(at as int),
        buffer_contents(*final(buffer)) == buffer_contents(*old(buffer)).skip(at as int),
{
    buffer.split_to(at)
}

/// `AsRef<[u8]>` of `Bytes` gives the bytes in a buffer.
#[verifier::external_body]
pub(crate) fn buffer_as_slice(buffer: &Bytes) -> (bytes: &[u8])
    ensures
        bytes@ == buffer_contents(*buffer),
{
    buffer.as_ref()
}

/// The text that a sequence of bytes shows, with replacement characters for
/// what is not UTF-8.
pub uninterp spec fn utf8_lossy(bytes: Seq<u8>) -> Seq<char>;

/// `String::from_utf8_lossy` decodes UTF-8, and puts replacement characters in
/// the place of what is not UTF-8.
#[verifier::external_body]
pub(crate) fn decode_lossy(bytes: &[u8]) -> (text: String)
    ensures
        text@ == utf8_lossy(bytes@),
        valid_utf8(bytes@) ==> text@ == decode_utf8(bytes@),
{
    String::from_utf8_lossy(bytes).into_owned()
}

proof fn lemma_hex_digit(digit: int)
    requires
        0 <= digit < 16,
    ensures
        hex_value(lower_hex_char(digit)) == Some(digit),
{
}

/// Hexadecimal text reads back as the bytes it was written from.
pub proof fn law_hex_round_trip(bytes: Seq<u8>)
    ensures
        is_hex(lower_hex(bytes)),
        hex_bytes(lower_hex(bytes)) == bytes,
{
    let text = lower_hex(bytes);
    assert forall|i: int| 0 <= i < text.len() implies #[trigger] hex_value(text[i]) is Some by {
        lemma_hex_digit((bytes[i / 2] / 16) as int);
        lemma_hex_digit((bytes[i / 2] % 16) as int);
    }
    assert forall|i: int| 0 <= i < bytes.len() implies #[trigger] hex_bytes(text)[i]
        == bytes[i] by {
        lemma_hex_digit((bytes[i] / 16) as int);
        lemma_hex_digit((bytes[i] % 16) as int);
        assert((2 * i) / 2 == i && (2 * i + 1) / 2 == i);
        assert(text[2 * i] == lower_hex_char((bytes[i] / 16) as int));
        assert(text[2 * i + 1] == lower_hex_char((bytes[i] % 16) as int));
    }
    assert(hex_bytes(text) =~= bytes);
}

/// Hexadecimal text is written in lower case, two digits for each byte, the upper
/// half of the byte first.
pub proof fn law_hex_is_written_in_lower_case(bytes: Seq<u8>, i: int)
    requires
        0 <= i < bytes.len(),
    ensures
        ({
            let text = lower_hex(bytes);
            &&& text.len() == 2 * bytes.len()
            &&& '0' <= text[2 * i] <= '9' || 'a' <= text[2 * i] <= 'f'
            &&& '0' <= text[2 * i + 1] <= '9' || 'a' <= text[2 * i + 1] <= 'f'
            &&& hex_value(text[2 * i]) == Some(bytes[i] as int / 16)
            &&& hex_value(text[2 * i + 1]) == Some(bytes[i] as int % 16)
        }),
{
    lemma_hex_digit((bytes[i] / 16) as int);
    lemma_hex_digit((bytes[i] % 16) as int);
    assert((2 * i) / 2 == i && (2 * i + 1) / 2 == i);
}

/// The digits are those from zero to nine and the six letters after them, which
/// count on from ten in either case.
pub proof fn law_digits_count_up(c: char, next: char)
    ensures
        hex_value('0') == Some(0int),
        hex_value('a') == Some(10int),
        hex_value('A') == Some(10int),
        hex_value('g') is None && hex_value('G') is None && hex_value(':') is None,
        hex_value(c) matches Some(value) ==> 0 <= value < 16,
        next as u32 == c as u32 + 1 && hex_value(c) is Some && hex_value(next) is Some
            ==> hex_value(next)->0 == hex_value(c)->0 + 1,
{
}

/// The six bits that a character of the standard alphabet stands for; padding
/// stands for zeros.
pub open spec fn base64_value(c: char) -> int {
    if 'A' <= c <= 'Z' {
        c as u32 - 'A' as u32
    } else if 'a' <= c <= 'z' {
        26 + (c as u32 - 'a' as u32)
    } else if '0' <= c <= '9' {
        52 + (c as u32 - '0' as u32)
    } else if c == '+' {
        62
    } else if c == '/' {
        63
    } else {
        0
    }
}

proof fn lemma_base64_digit(value: int)
    requires
        0 <= value < 64,
    ensures
        base64_value(base64_char(value)) == value,
        base64_char(value) != '=',
{
}

proof fn lemma_base64_number(group: int)
    requires
        0 <= group < 0x100_0000,
    ensures
        0 <= group / 0x4_0000 < 64,
        ((group / 0x4_0000 * 64 + group / 0x1000 % 0x40) * 64 + group / 0x40 % 0x40) * 64 + group
            % 0x40 == group,
{
}

proof fn lemma_base64_bytes(first: int, second: int, third: int)
    requires
        0 <= first < 256,
        0 <= second < 256,
        0 <= third < 256,
    ensures
        ({
            let group = first * 0x1_0000 + second * 0x100 + third;
            &&& 0 <= group < 0x100_0000
            &&& group / 0x1_0000 == first
            &&& group / 0x100 % 0x100 == second
            &&& group % 0x100 == third
            &&& third == 0 ==> group % 0x40 == 0
            &&& second == 0 && third == 0 ==> group / 0x40 % 0x40 == 0
        }),
{
}

proof fn lemma_base64_places(data: Seq<u8>, i: int)
    requires
        0 <= i,
        3 * i < data.len(),
    ensures
        ({
            let text = base64_standard(data);
            let group = base64_group(data, 3 * i);
            &&& text.len() == 4 * ((data.len() as int + 2) / 3)
            &&& 4 * i + 3 < text.len()
            &&& text[4 * i] == base64_char(group / 0x4_0000)
            &&& text[4 * i + 1] == base64_char(group / 0x1000 % 0x40)
            &&& text[4 * i + 2] == if 3 * i + 1 >= data.len() {
                '='
            } else {
                base64_char(group / 0x40 % 0x40)
            }
            &&& text[4 * i + 3] == if 3 * i + 2 >= data.len() {
                '='
            } else {
                base64_char(group % 0x40)
            }
        }),
{
    assert((4 * i) / 4 == i && (4 * i + 1) / 4 == i && (4 * i + 2) / 4 == i && (4 * i + 3) / 4
        == i);
    assert((4 * i) % 4 == 0 && (4 * i + 1) % 4 == 1 && (4 * i + 2) % 4 == 2 && (4 * i + 3) % 4
        == 3);
}

/// Base64 text reads back as the bytes it was written from: each four characters
/// hold three bytes, and stand for padding exactly where the bytes end.
pub proof fn law_base64_reads_back(data: Seq<u8>, i: int)
    requires
        0 <= i,
        3 * i < data.len(),
    ensures
        ({
            let text = base64_standard(data);
            let first = base64_value(text[4 * i]);
            let second = base64_value(text[4 * i + 1]);
            let third = base64_value(text[4 * i + 2]);
            let fourth = base64_value(text[4 * i + 3]);
            let number = ((first * 64 + second) * 64 + third) * 64 + fourth;
            &&& text.len() == 4 * ((data.len() as int + 2) / 3)
            &&& 4 * i + 3 < text.len()
            &&& number / 0x1_0000 == data[3 * i]
            &&& 3 * i + 1 < data.len() ==> number / 0x100 % 0x100 == data[3 * i + 1]
            &&& 3 * i + 2 < data.len() ==> number % 0x100 == data[3 * i + 2]
            &&& text[4 * i] != '=' && text[4 * i + 1] != '='
            &&& text[4 * i + 2] == '=' <==> 3 * i + 1 >= data.len()
            &&& text[4 * i + 3] == '=' <==> 3 * i + 2 >= data.len()
        }),
{
    let group = base64_group(data, 3 * i);
    let second = if 3 * i + 1 < data.len() {
        data[3 * i + 1] as int
    } else {
        0
    };
    let third = if 3 * i + 2 < data.len() {
        data[3 * i + 2] as int
    } else {
        0
    };
    lemma_base64_bytes(data[3 * i] as int, second, third);
    lemma_base64_places(data, i);
    lemma_base64_number(group);
    lemma_base64_digit(group / 0x4_0000);
    lemma_base64_digit(group / 0x1000 % 0x40);
    lemma_base64_digit(group / 0x40 % 0x40);
    lemma_base64_digit(group % 0x40);
}

/// Hexadecimal texts stand for their bytes one behind the other, and a text with
/// any other character, or with a digit too many, stands for none.
pub proof fn law_hex_texts_are_read_in_order(a: Seq<char>, b: Seq<char>, i: int)
    ensures
        is_hex(a) && is_hex(b) ==> is_hex(a + b) && hex_bytes(a + b) == hex_bytes(a) + hex_bytes(b),
        a.len() % 2 == 1 ==> !is_hex(a),
        0 <= i < a.len() && hex_value(a[i]) is None ==> !is_hex(a),
        is_hex(Seq::<char>::empty()),
        hex_bytes(Seq::<char>::empty()).len() == 0,
{
    if is_hex(a) && is_hex(b) {
        let both = a + b;
        assert forall|k: int| 0 <= k < both.len() implies #[trigger] hex_value(both[k]) is Some by {
            if k < a.len() {
                assert(both[k] == a[k]);
            } else {
                assert(both[k] == b[k - a.len()]);
            }
        }
        let half = a.len() as int / 2;
        assert forall|k: int| 0 <= k < both.len() / 2 implies #[trigger] hex_bytes(both)[k] == (
        hex_bytes(a) + hex_bytes(b))[k] by {
            if k < half {
                assert(both[2 * k] == a[2 * k] && both[2 * k + 1] == a[2 * k + 1]);
            } else {
                assert(both[2 * k] == b[2 * (k - half)] && both[2 * k + 1] == b[2 * (k - half)
                    + 1]);
            }
        }
        assert(hex_bytes(both) =~= hex_bytes(a) + hex_bytes(b));
    }
}

} // verus!
