//! The parts of the Windows ABI that the native audio backends decide by:
//! result codes, interface identifiers and wave formats.
use crate::sink::{SinkError, SinkErrorKind};
use crate::text;
use vstd::prelude::*;

verus! {

/// A Windows result code; a negative one is a failure.
pub type HResult = i32;

/// The code of a thread whose COM mode was already chosen otherwise.
pub const RPC_E_CHANGED_MODE: HResult = -2147417850;

/// The code for an interface that an object does not have.
pub const E_NOINTERFACE: HResult = -2147467262;

/// The code for a pointer that must not be null.
pub const E_POINTER: HResult = -2147467261;

/// The identifier of `IUnknown`.
pub const IID_IUNKNOWN: u128 = 0x00000000_0000_0000_c000_000000000046;

/// The identifier of `IAudioClient`.
pub const IID_AUDIO_CLIENT: u128 = 0x1cb9ad4c_dbfa_4c32_b178_c2f568a703b2;

/// The identifier of `IAudioClient2`.
pub const IID_AUDIO_CLIENT2: u128 = 0x726778cd_f60a_4eda_82de_e47610cd78aa;

/// The identifier of `IAudioRenderClient`.
pub const IID_AUDIO_RENDER_CLIENT: u128 = 0xf294acfc_3146_4483_a7bf_addca7c260e2;

/// The identifier of `IActivateAudioInterfaceCompletionHandler`.
pub const IID_ACTIVATION_HANDLER: u128 = 0x41d949ab_9862_444a_80f6_c261334da5eb;

/// The identifier of `IAgileObject`.
pub const IID_IAGILE_OBJECT: u128 = 0x94ea2b94_e9cc_49e0_c0ff_ee64ca8f5b90;

/// The tag of wave formats with floating point samples.
pub const WAVE_FORMAT_IEEE_FLOAT: u16 = 3;

/// A globally unique identifier.
#[derive(Clone, Copy, Debug, PartialEq, Eq)]
pub struct Guid {
    pub data1: u32,
    pub data2: u16,
    pub data3: u16,
    pub data4: [u8; 8],
}

impl Guid {
    /// The number that the last `8 - from` bytes of the identifier follow.
    pub open spec fn leading(self, from: int) -> int
        decreases from,
    {
        if from <= 0 {
            (self.data1 * 0x1_0000 + self.data2) * 0x1_0000 + self.data3
        } else {
            self.leading(from - 1) * 0x100 + self.data4@[from - 1]
        }
    }

    /// The number whose hexadecimal digits are those of the identifier.
    pub open spec fn value(self) -> int {
        self.leading(8)
    }

    /// The identifier whose hexadecimal digits are those of `value`.
    pub fn from_u128(value: u128) -> (guid: Guid)
        ensures
            guid.value() == value,
    {
        let q7: u128 = value / 0x100;
        let q6: u128 = q7 / 0x100;
        let q5: u128 = q6 / 0x100;
        let q4: u128 = q5 / 0x100;
        let q3: u128 = q4 / 0x100;
        let q2: u128 = q3 / 0x100;
        let q1: u128 = q2 / 0x100;
        let q0: u128 = q1 / 0x100;
        let head: u128 = q0 / 0x1_0000;
        let guid = Guid {
            data1: (head / 0x1_0000) as u32,
            data2: (head % 0x1_0000) as u16,
            data3: (q0 % 0x1_0000) as u16,
            data4: [
                (q1 % 0x100) as u8,
                (q2 % 0x100) as u8,
                (q3 % 0x100) as u8,
                (q4 % 0x100) as u8,
                (q5 % 0x100) as u8,
                (q6 % 0x100) as u8,
                (q7 % 0x100) as u8,
                (value % 0x100) as u8,
            ],
        };
        proof {
            reveal_with_fuel(Guid::leading, 2);
            assert(guid.leading(0) == q0);
            assert(guid.leading(1) == q1);
            assert(guid.leading(2) == q2);
            assert(guid.leading(3) == q3);
            assert(guid.leading(4) == q4);
            assert(guid.leading(5) == q5);
            assert(guid.leading(6) == q6);
            assert(guid.leading(7) == q7);
        }
        guid
    }

    /// The number whose hexadecimal digits are those of the identifier.
    pub fn to_u128(&self) -> (value: u128)
        ensures
            value == self.value(),
    {
        let tail = &self.data4;
        let v0: u128 = (self.data1 as u128 * 0x1_0000 + self.data2 as u128) * 0x1_0000
            + self.data3 as u128;
        let v1: u128 = v0 * 0x100 + tail[0] as u128;
        let v2: u128 = v1 * 0x100 + tail[1] as u128;
        let v3: u128 = v2 * 0x100 + tail[2] as u128;
        let v4: u128 = v3 * 0x100 + tail[3] as u128;
        let v5: u128 = v4 * 0x100 + tail[4] as u128;
        let v6: u128 = v5 * 0x100 + tail[5] as u128;
        let v7: u128 = v6 * 0x100 + tail[6] as u128;
        proof {
            reveal_with_fuel(Guid::leading, 2);
            assert(self.leading(0) == v0);
            assert(self.leading(1) == v1);
            assert(self.leading(2) == v2);
            assert(self.leading(3) == v3);
            assert(self.leading(4) == v4);
            assert(self.leading(5) == v5);
            assert(self.leading(6) == v6);
            assert(self.leading(7) == v7);
        }
        v7 * 0x100 + tail[7] as u128
    }
}

proof fn lemma_leading_identifies(a: Guid, b: Guid, from: int)
    requires
        0 <= from <= 8,
        a.leading(from) == b.leading(from),
    ensures
        a.leading(0) == b.leading(0),
        forall|i: int| 0 <= i < from ==> a.data4@[i] == b.data4@[i],
    decreases from,
{
    if from > 0 {
        let (x, y) = (a.leading(from - 1), b.leading(from - 1));
        assert(x * 0x100 + a.data4@[from - 1] == y * 0x100 + b.data4@[from - 1]);
        assert(x == y);
        lemma_leading_identifies(a, b, from - 1);
    }
}

/// An identifier is determined by its number.
pub proof fn law_guid_value_identifies(a: Guid, b: Guid)
    requires
        a.value() == b.value(),
    ensures
        a.data1 == b.data1,
        a.data2 == b.data2,
        a.data3 == b.data3,
        a.data4@ == b.data4@,
{
    lemma_leading_identifies(a, b, 8);
    assert(a.data4@ =~= b.data4@);
}

/// A wave format description.
#[derive(Clone, Copy, Debug, PartialEq, Eq, Structural)]
pub struct WaveFormatEx {
    pub format_tag: u16,
    pub channels: u16,
    pub samples_per_sec: u32,
    pub average_bytes_per_sec: u32,
    pub block_align: u16,
    pub bits_per_sample: u16,
    pub extra_size: u16,
}

impl WaveFormatEx {
    /// The format of interleaved floating point samples of 32 bits.
    pub fn float32(sample_rate: u32, channels: u16) -> (format: WaveFormatEx)
        requires
            channels * 4 <= u16::MAX,
            sample_rate * (channels * 4) <= u32::MAX,
        ensures
            format == (WaveFormatEx {
                format_tag: WAVE_FORMAT_IEEE_FLOAT,
                channels,
                samples_per_sec: sample_rate,
                average_bytes_per_sec: (sample_rate * (channels * 4)) as u32,
                block_align: (channels * 4) as u16,
                bits_per_sample: 32,
                extra_size: 0,
            }),
    {
        let block_align: u16 = channels * 4;
        WaveFormatEx {
            format_tag: WAVE_FORMAT_IEEE_FLOAT,
            channels,
            samples_per_sec: sample_rate,
            average_bytes_per_sec: sample_rate * block_align as u32,
            block_align,
            bits_per_sample: 32,
            extra_size: 0,
        }
    }
}

/// Whether a result code reports success.
pub fn succeeded(result: HResult) -> (yes: bool)
    ensures
        yes == (result >= 0),
{
    result >= 0
}

/// The code as an unsigned number: negative codes count from the top.
pub open spec fn unsigned_code(result: HResult) -> nat {
    if result >= 0 {
        result as nat
    } else {
        (0x1_0000_0000 + result) as nat
    }
}

/// What is reported of a failed operation.
pub open spec fn failure_text(operation: Seq<char>, result: HResult) -> Seq<char> {
    operation + " failed (0x"@ + text::upper_hex(unsigned_code(result), 8) + ")"@
}

/// What is reported of a failed operation can be handed to C, as the name of the
/// operation can.
pub proof fn law_failures_can_be_told(operation: Seq<char>, result: HResult)
    requires
        text::has_no_nul(operation),
    ensures
        text::has_no_nul(failure_text(operation, result)),
        failure_text(operation, result).len() > 0,
{
    reveal_strlit(" failed (0x");
    reveal_strlit(")");
    let digits = text::upper_hex(unsigned_code(result), 8);
    text::lemma_no_nul_hex(unsigned_code(result), 8);
    text::lemma_no_nul_add(operation, " failed (0x"@);
    text::lemma_no_nul_add(operation + " failed (0x"@, digits);
    text::lemma_no_nul_add(operation + " failed (0x"@ + digits, ")"@);
}

/// The error for an operation that failed with the given code.
pub fn hresult_error(operation: &str, result: HResult) -> (error: SinkError)
    ensures
        error.is(SinkErrorKind::NotConnected, failure_text(operation@, result)),
{
    let code: u32 = if result >= 0 {
        result as u32
    } else {
        (0x1_0000_0000i64 + result as i64) as u32
    };
    let digits = text::to_upper_hex(code, 8);
    let mut message = text::concat3(operation, " failed (0x", digits.as_str());
    message.append(")");
    SinkError::NotConnected(message)
}

/// Turns the result code of an operation into a result.
pub fn check_hr(operation: &str, result: HResult) -> (outcome: Result<(), SinkError>)
    ensures
        outcome is Ok <==> result >= 0,
        outcome matches Err(error) ==> error.is(
            SinkErrorKind::NotConnected,
            failure_text(operation@, result),
        ),
{
    if succeeded(result) {
        Ok(())
    } else {
        Err(hresult_error(operation, result))
    }
}

/// What `ComPtr::query` makes of the result code and the pointer that
/// `IUnknown::QueryInterface` gave: the interface, or the code to report.
pub fn query_outcome(result: HResult, is_null: bool) -> (outcome: Result<(), HResult>)
    ensures
        outcome is Ok <==> result >= 0 && !is_null,
        outcome matches Err(code) ==> code == if result < 0 {
            result
        } else {
            E_POINTER
        },
{
    if result < 0 {
        Err(result)
    } else if is_null {
        Err(E_POINTER)
    } else {
        Ok(())
    }
}

/// The answer of the completion handler when it is asked for an interface.
/// `None` stands for a null pointer. The object is handed out, and counted as
/// referenced once more, if the code is zero.
pub fn handler_query_interface(iid: Option<Guid>, has_object: bool) -> (code: HResult)
    ensures
        code == if iid is None || !has_object {
            E_POINTER
        } else if iid->0.value() == IID_IUNKNOWN || iid->0.value() == IID_ACTIVATION_HANDLER
            || iid->0.value() == IID_IAGILE_OBJECT {
            0
        } else {
            E_NOINTERFACE
        },
{
    let wanted: u128 = match iid {
        Some(guid) if has_object => guid.to_u128(),
        _ => return E_POINTER,
    };
    if wanted != IID_IUNKNOWN && wanted != IID_ACTIVATION_HANDLER && wanted != IID_IAGILE_OBJECT {
        return E_NOINTERFACE;
    }
    0
}

/// The reference count of the completion handler.
#[derive(Debug, Clone, Copy, PartialEq, Eq, Structural)]
pub struct HandlerReferences {
    pub count: u32,
}

impl HandlerReferences {
    /// The count of a new handler, which its maker refers to.
    pub fn new() -> (references: HandlerReferences)
        ensures
            references.count == 1,
    {
        HandlerReferences { count: 1 }
    }

    /// Counts one reference more, and returns how many there are.
    pub fn add_ref(&mut self) -> (count: u32)
        requires
            old(self).count < u32::MAX,
        ensures
            count == old(self).count + 1,
            final(self).count == count,
    {
        self.count = self.count + 1;
        self.count
    }

    /// Counts one reference less, and returns how many there are. The handler
    /// goes away with the last one.
    pub fn release(&mut self) -> (remaining: u32)
        requires
            old(self).count > 0,
        ensures
            remaining == old(self).count - 1,
            final(self).count == remaining,
    {
        self.count = self.count - 1;
        self.count
    }
}

/// The code that the completion handler reports: that of the activation, or
/// that of the failed attempt to ask for it. `None` stands for a null
/// operation, otherwise the code of the call and the code that it gave.
pub fn handler_activate_completed(answer: Option<(HResult, HResult)>) -> (code: HResult)
    ensures
        code == match answer {
            None => E_POINTER,
            Some((call, activation)) => if call >= 0 {
                activation
            } else {
                call
            },
        },
{
    match answer {
        None => E_POINTER,
        Some((call_result, activation_result)) => if succeeded(call_result) {
            activation_result
        } else {
            call_result
        },
    }
}

/// A code is shown as the number with the same thirty-two bits, in eight
/// hexadecimal digits behind the name of the operation.
pub proof fn law_codes_are_shown_by_their_bits(operation: Seq<char>, result: HResult)
    ensures
        unsigned_code(result) <= u32::MAX,
        result >= 0 ==> unsigned_code(result) == result,
        result < 0 ==> unsigned_code(result) - 0x1_0000_0000 == result,
        ({
            let shown = failure_text(operation, result);
            let n = operation.len() as int;
            &&& shown.len() == n + 20
            &&& shown.take(n) == operation
            &&& shown.subrange(n, n + 11) == " failed (0x"@
            &&& text::hex_number(shown.subrange(n + 11, n + 19)) == unsigned_code(result)
            &&& shown[n + 19] == ')'
        }),
{
    reveal_strlit(" failed (0x");
    reveal_strlit(")");
    let code = unsigned_code(result);
    let digits = text::upper_hex(code, 8);
    text::law_upper_hex_round_trip(code, 8);
    assert(vstd::arithmetic::power::pow(16, 8) == 0x1_0000_0000) by {
        reveal(vstd::arithmetic::power::pow);
        reveal_with_fuel(vstd::arithmetic::power::pow, 9);
    }
    let shown = failure_text(operation, result);
    let n = operation.len() as int;
    assert(shown.take(n) =~= operation);
    assert(shown.subrange(n, n + 11) =~= " failed (0x"@);
    assert(shown.subrange(n + 11, n + 19) =~= digits);
}

/// The number of an identifier is read off its fields in their order: the first
/// field has the highest thirty-two bits, the next two have sixteen bits each, and
/// the bytes follow, the last of them lowest.
pub proof fn law_the_number_of_an_identifier_is_that_of_its_fields(guid: Guid)
    ensures
        guid.value() / 0x1_0000_0000_0000_0000_0000_0000 == guid.data1,
        guid.value() / 0x1_0000_0000_0000_0000_0000 % 0x1_0000 == guid.data2,
        guid.value() / 0x1_0000_0000_0000_0000 % 0x1_0000 == guid.data3,
        guid.value() / 0x100_0000_0000_0000 % 0x100 == guid.data4@[0],
        guid.value() / 0x1_0000_0000_0000 % 0x100 == guid.data4@[1],
        guid.value() / 0x100_0000_0000 % 0x100 == guid.data4@[2],
        guid.value() / 0x1_0000_0000 % 0x100 == guid.data4@[3],
        guid.value() / 0x100_0000 % 0x100 == guid.data4@[4],
        guid.value() / 0x1_0000 % 0x100 == guid.data4@[5],
        guid.value() / 0x100 % 0x100 == guid.data4@[6],
        guid.value() % 0x100 == guid.data4@[7],
{
    reveal_with_fuel(Guid::leading, 9);
}

} // verus!
