//! Opening an XAudio2 sink: which call comes next, and what its result leads
//! to. The calls themselves are made elsewhere.
use crate::sink::{SinkError, SinkErrorKind};
use crate::windows_native::{hresult_error, succeeded, HResult, RPC_E_CHANGED_MODE};
use vstd::prelude::*;

verus! {

/// The processor that the engine runs on: the first, as a bit mask.
pub const XAUDIO2_DEFAULT_PROCESSOR: u32 = 0x0000_0001;

/// The source voice has no pitch control.
pub const XAUDIO2_VOICE_NOPITCH: u32 = 0x0002;

/// The source voice does not convert sample rates.
pub const XAUDIO2_VOICE_NOSRC: u32 = 0x0004;

/// The audio that is queued before the voice starts.
pub const PRE_ROLL_MILLISECONDS: u32 = 200;

/// The audio that may wait in the queue.
pub const MAX_QUEUE_MILLISECONDS: u32 = 500;

/// The audio that is submitted at a time.
pub const SUBMISSION_CHUNK_MILLISECONDS: u32 = 20;

/// The class of the equalizer.
pub const FX_EQ: u128 = 0xf5e01117_d6c4_485a_a3f5_695196f3dbfa;

/// The class of the echo.
pub const FX_ECHO: u128 = 0x5039d740_f736_449a_84d3_a56202557b87;

/// The class of the reverb.
pub const FX_REVERB: u128 = 0x7d9aca56_cb68_4807_b632_b137352e8596;

/// The class of the mastering limiter.
pub const FX_MASTERING_LIMITER: u128 = 0xc4137916_2be1_46fd_8599_441536f49856;

/// The calls with which a sink is opened, in their order.
#[derive(Debug, Clone, Copy, PartialEq, Eq, Structural)]
pub enum XAudio2OpenCall {
    RoInitialize,
    CreateEngine,
    CreateMasteringVoice,
    CreateEqualizer,
    CreateEcho,
    CreateLimiter,
    CreateReverb,
    CreateReverbVoice,
    CreateSourceVoice,
    StartEngine,
    ApplyEffects,
}

/// The voices of a sink.
#[derive(Debug, Clone, Copy, PartialEq, Eq, Structural)]
pub enum Voice {
    Mastering,
    Reverb,
    Source,
}

/// A sink that is being opened.
#[derive(Debug, Clone, Copy, PartialEq, Eq, Structural)]
pub struct XAudio2Opening {
    pub call: XAudio2OpenCall,
    pub ro_owned: bool,
}

/// Where an opening stands after a call.
#[derive(Debug)]
pub enum XAudio2OpenStep {
    /// The call that `XAudio2Opening` names is due.
    Call,
    /// The sink is open.
    Ready,
    /// The sink cannot be opened. The listed voices are to be destroyed in that
    /// order, the engine is to be stopped if `stop_engine` is set, and the
    /// Windows Runtime is to be left again if `uninitialize` is set.
    Failed { error: SinkError, destroy: Vec<Voice>, stop_engine: bool, uninitialize: bool },
}

/// The name by which a failing opening call is reported.
pub open spec fn open_call_name(call: XAudio2OpenCall) -> Seq<char> {
    match call {
        XAudio2OpenCall::RoInitialize => "RoInitialize"@,
        XAudio2OpenCall::CreateEngine => "XAudio2Create"@,
        XAudio2OpenCall::CreateMasteringVoice => "IXAudio2::CreateMasteringVoice"@,
        XAudio2OpenCall::CreateReverbVoice => "IXAudio2::CreateSubmixVoice(reverb)"@,
        XAudio2OpenCall::CreateSourceVoice => "IXAudio2::CreateSourceVoice"@,
        XAudio2OpenCall::StartEngine => "IXAudio2::StartEngine"@,
        _ => "CreateFX"@,
    }
}

/// What is reported of an opening call that succeeds and hands out nothing;
/// nothing for calls that hand nothing out.
pub open spec fn null_message(call: XAudio2OpenCall) -> Option<Seq<char>> {
    match call {
        XAudio2OpenCall::RoInitialize => None,
        XAudio2OpenCall::CreateEngine => Some("XAudio2 returned no engine"@),
        XAudio2OpenCall::CreateMasteringVoice => Some("XAudio2 returned no mastering voice"@),
        XAudio2OpenCall::CreateReverbVoice => Some("XAudio2 returned no reverb submix voice"@),
        XAudio2OpenCall::CreateSourceVoice => Some("XAudio2 returned no source voice"@),
        XAudio2OpenCall::StartEngine => None,
        XAudio2OpenCall::ApplyEffects => None,
        _ => Some("CreateFX returned no XAPO"@),
    }
}

/// The message of an opening that fails, or nothing if the reply lets it go on.
pub open spec fn open_failure(call: XAudio2OpenCall, code: HResult, is_null: bool) -> Option<
    Seq<char>,
> {
    if code < 0 && !(call == XAudio2OpenCall::RoInitialize && code == RPC_E_CHANGED_MODE) {
        Some(crate::windows_native::failure_text(open_call_name(call), code))
    } else if is_null {
        null_message(call)
    } else {
        None
    }
}

/// Why an opening fails can be handed to C.
pub proof fn law_failed_openings_can_be_told(call: XAudio2OpenCall, code: HResult, is_null: bool)
    ensures
        open_failure(call, code, is_null) matches Some(message) ==> crate::text::has_no_nul(message) && message.len() > 0,
{
    reveal_strlit("RoInitialize");
    reveal_strlit("XAudio2Create");
    reveal_strlit("IXAudio2::CreateMasteringVoice");
    reveal_strlit("IXAudio2::CreateSubmixVoice(reverb)");
    reveal_strlit("IXAudio2::CreateSourceVoice");
    reveal_strlit("IXAudio2::StartEngine");
    reveal_strlit("CreateFX");
    reveal_strlit("XAudio2 returned no engine");
    reveal_strlit("XAudio2 returned no mastering voice");
    reveal_strlit("XAudio2 returned no reverb submix voice");
    reveal_strlit("XAudio2 returned no source voice");
    reveal_strlit("CreateFX returned no XAPO");
    crate::windows_native::law_failures_can_be_told(open_call_name(call), code);
}

/// The call after `call`; nothing after the last.
pub open spec fn open_call_after(call: XAudio2OpenCall) -> Option<XAudio2OpenCall> {
    match call {
        XAudio2OpenCall::RoInitialize => Some(XAudio2OpenCall::CreateEngine),
        XAudio2OpenCall::CreateEngine => Some(XAudio2OpenCall::CreateMasteringVoice),
        XAudio2OpenCall::CreateMasteringVoice => Some(XAudio2OpenCall::CreateEqualizer),
        XAudio2OpenCall::CreateEqualizer => Some(XAudio2OpenCall::CreateEcho),
        XAudio2OpenCall::CreateEcho => Some(XAudio2OpenCall::CreateLimiter),
        XAudio2OpenCall::CreateLimiter => Some(XAudio2OpenCall::CreateReverb),
        XAudio2OpenCall::CreateReverb => Some(XAudio2OpenCall::CreateReverbVoice),
        XAudio2OpenCall::CreateReverbVoice => Some(XAudio2OpenCall::CreateSourceVoice),
        XAudio2OpenCall::CreateSourceVoice => Some(XAudio2OpenCall::StartEngine),
        XAudio2OpenCall::StartEngine => Some(XAudio2OpenCall::ApplyEffects),
        XAudio2OpenCall::ApplyEffects => None,
    }
}

/// The voice that a call makes.
pub open spec fn voice_made_by(call: XAudio2OpenCall) -> Seq<Voice> {
    match call {
        XAudio2OpenCall::CreateMasteringVoice => seq![Voice::Mastering],
        XAudio2OpenCall::CreateReverbVoice => seq![Voice::Reverb],
        XAudio2OpenCall::CreateSourceVoice => seq![Voice::Source],
        _ => Seq::empty(),
    }
}

/// The voices that exist when `call` is due, in the order in which they were
/// made.
pub open spec fn voices_before(call: XAudio2OpenCall) -> Seq<Voice> {
    match call {
        XAudio2OpenCall::RoInitialize => Seq::empty(),
        XAudio2OpenCall::CreateEngine => Seq::empty(),
        XAudio2OpenCall::CreateMasteringVoice => Seq::empty(),
        XAudio2OpenCall::CreateSourceVoice => seq![Voice::Mastering, Voice::Reverb],
        XAudio2OpenCall::StartEngine => seq![Voice::Mastering, Voice::Reverb, Voice::Source],
        XAudio2OpenCall::ApplyEffects => seq![Voice::Mastering, Voice::Reverb, Voice::Source],
        _ => seq![Voice::Mastering],
    }
}

/// The voices that exist when a call is due are those that the calls before it
/// made.
pub proof fn law_voices_follow_the_calls(call: XAudio2OpenCall)
    ensures
        call == XAudio2OpenCall::RoInitialize ==> voices_before(call) == Seq::<Voice>::empty(),
        open_call_after(call) matches Some(next) ==> voices_before(next) == voices_before(call)
            + voice_made_by(call),
{
    if let Some(next) = open_call_after(call) {
        assert(voices_before(next) =~= voices_before(call) + voice_made_by(call));
    }
}

/// Whether an opening is what the result of the call that was due makes of it.
pub open spec fn is_opened(
    before: XAudio2Opening,
    code: HResult,
    is_null: bool,
    after: XAudio2Opening,
    step: XAudio2OpenStep,
) -> bool {
    match open_failure(before.call, code, is_null) {
        Some(message) => {
            &&& step matches XAudio2OpenStep::Failed {
                error,
                destroy,
                stop_engine,
                uninitialize,
            }
            &&& error.is(SinkErrorKind::NotConnected, message)
            &&& destroy@ == voices_before(before.call).reverse()
            &&& !stop_engine
            &&& uninitialize == before.ro_owned
            &&& after == before
        },
        None => {
            &&& step is Call
            &&& Some(after.call) == open_call_after(before.call)
            &&& after.ro_owned == if before.call == XAudio2OpenCall::RoInitialize {
                code >= 0
            } else {
                before.ro_owned
            }
        },
    }
}

impl XAudio2Opening {
    /// Starts to open a sink.
    pub fn begin() -> (opening: XAudio2Opening)
        ensures
            opening == (XAudio2Opening { call: XAudio2OpenCall::RoInitialize, ro_owned: false }),
    {
        XAudio2Opening { call: XAudio2OpenCall::RoInitialize, ro_owned: false }
    }

    fn abandon(&self, error: SinkError) -> (step: XAudio2OpenStep)
        ensures
            step matches XAudio2OpenStep::Failed { error: e, destroy, stop_engine, uninitialize } && e
                == error && destroy@ == voices_before(self.call).reverse() && stop_engine == (
            self.call == XAudio2OpenCall::ApplyEffects) && uninitialize == self.ro_owned,
    {
        let mut destroy: Vec<Voice> = Vec::new();
        match self.call {
            XAudio2OpenCall::RoInitialize | XAudio2OpenCall::CreateEngine
            | XAudio2OpenCall::CreateMasteringVoice => {},
            XAudio2OpenCall::CreateSourceVoice => {
                destroy.push(Voice::Reverb);
                destroy.push(Voice::Mastering);
            },
            XAudio2OpenCall::StartEngine | XAudio2OpenCall::ApplyEffects => {
                destroy.push(Voice::Source);
                destroy.push(Voice::Reverb);
                destroy.push(Voice::Mastering);
            },
            _ => {
                destroy.push(Voice::Mastering);
            },
        }
        assert(destroy@ =~= voices_before(self.call).reverse());
        XAudio2OpenStep::Failed {
            error,
            destroy,
            stop_engine: matches!(self.call, XAudio2OpenCall::ApplyEffects),
            uninitialize: self.ro_owned,
        }
    }

    fn failure(&self, code: HResult, is_null: bool) -> (error: Option<SinkError>)
        requires
            self.call != XAudio2OpenCall::ApplyEffects,
        ensures
            match open_failure(self.call, code, is_null) {
                Some(message) => error matches Some(e) && e.is(
                    SinkErrorKind::NotConnected,
                    message,
                ),
                None => error is None,
            },
    {
        let (name, nothing): (&str, Option<&str>) = match self.call {
            XAudio2OpenCall::RoInitialize => {
                if code == RPC_E_CHANGED_MODE {
                    return None;
                }
                ("RoInitialize", None)
            },
            XAudio2OpenCall::CreateEngine => ("XAudio2Create", Some("XAudio2 returned no engine")),
            XAudio2OpenCall::CreateMasteringVoice => (
                "IXAudio2::CreateMasteringVoice",
                Some("XAudio2 returned no mastering voice"),
            ),
            XAudio2OpenCall::CreateReverbVoice => (
                "IXAudio2::CreateSubmixVoice(reverb)",
                Some("XAudio2 returned no reverb submix voice"),
            ),
            XAudio2OpenCall::CreateSourceVoice => (
                "IXAudio2::CreateSourceVoice",
                Some("XAudio2 returned no source voice"),
            ),
            XAudio2OpenCall::StartEngine => ("IXAudio2::StartEngine", None),
            _ => ("CreateFX", Some("CreateFX returned no XAPO")),
        };
        if !succeeded(code) {
            return Some(hresult_error(name, code));
        }
        match nothing {
            Some(message) => if is_null {
                Some(SinkError::not_connected(message))
            } else {
                None
            },
            None => None,
        }
    }

    /// Takes the result code of the call that was due, and whether what it hands
    /// out is null. A failed opening leaves nothing behind: the voices that were
    /// made are destroyed, the last one first.
    pub fn advance(&mut self, code: HResult, is_null: bool) -> (step: XAudio2OpenStep)
        requires
            old(self).call != XAudio2OpenCall::ApplyEffects,
        ensures
            is_opened(*old(self), code, is_null, *final(self), step),
    {
        if let Some(error) = self.failure(code, is_null) {
            return self.abandon(error);
        }
        self.call = match self.call {
            XAudio2OpenCall::RoInitialize => {
                self.ro_owned = succeeded(code);
                XAudio2OpenCall::CreateEngine
            },
            XAudio2OpenCall::CreateEngine => XAudio2OpenCall::CreateMasteringVoice,
            XAudio2OpenCall::CreateMasteringVoice => XAudio2OpenCall::CreateEqualizer,
            XAudio2OpenCall::CreateEqualizer => XAudio2OpenCall::CreateEcho,
            XAudio2OpenCall::CreateEcho => XAudio2OpenCall::CreateLimiter,
            XAudio2OpenCall::CreateLimiter => XAudio2OpenCall::CreateReverb,
            XAudio2OpenCall::CreateReverb => XAudio2OpenCall::CreateReverbVoice,
            XAudio2OpenCall::CreateReverbVoice => XAudio2OpenCall::CreateSourceVoice,
            XAudio2OpenCall::CreateSourceVoice => XAudio2OpenCall::StartEngine,
            _ => XAudio2OpenCall::ApplyEffects,
        };
        XAudio2OpenStep::Call
    }

    /// Takes what came of applying the effects for the first time, the last part
    /// of an opening.
    pub fn effects_applied(&self, outcome: Result<(), SinkError>) -> (step: XAudio2OpenStep)
        requires
            self.call == XAudio2OpenCall::ApplyEffects,
        ensures
            match outcome {
                Ok(_) => step is Ready,
                Err(failure) => {
                    &&& step matches XAudio2OpenStep::Failed {
                        error,
                        destroy,
                        stop_engine,
                        uninitialize,
                    }
                    &&& error == failure
                    &&& destroy@ == seq![Voice::Source, Voice::Reverb, Voice::Mastering]
                    &&& stop_engine
                    &&& uninitialize == self.ro_owned
                },
            },
    {
        match outcome {
            Ok(_) => XAudio2OpenStep::Ready,
            Err(error) => {
                proof {
                    assert(voices_before(XAudio2OpenCall::ApplyEffects).reverse() =~= seq![
                        Voice::Source,
                        Voice::Reverb,
                        Voice::Mastering,
                    ]);
                }
                self.abandon(error)
            },
        }
    }
}

/// The place of a call among those that open a sink.
pub open spec fn place_of(call: XAudio2OpenCall) -> int {
    match call {
        XAudio2OpenCall::RoInitialize => 0,
        XAudio2OpenCall::CreateEngine => 1,
        XAudio2OpenCall::CreateMasteringVoice => 2,
        XAudio2OpenCall::CreateEqualizer => 3,
        XAudio2OpenCall::CreateEcho => 4,
        XAudio2OpenCall::CreateLimiter => 5,
        XAudio2OpenCall::CreateReverb => 6,
        XAudio2OpenCall::CreateReverbVoice => 7,
        XAudio2OpenCall::CreateSourceVoice => 8,
        XAudio2OpenCall::StartEngine => 9,
        XAudio2OpenCall::ApplyEffects => 10,
    }
}

/// A sink is opened by all its calls, one after the other: none is left out, and
/// the engine starts only after the voices were made and before the effects are
/// applied.
pub proof fn law_a_sink_is_opened_by_all_calls(call: XAudio2OpenCall)
    ensures
        open_call_after(call) matches Some(next) ==> place_of(next) == place_of(call) + 1,
        open_call_after(call) is None <==> place_of(call) == 10,
        voices_before(XAudio2OpenCall::StartEngine).contains(Voice::Mastering),
        voices_before(XAudio2OpenCall::StartEngine).contains(Voice::Reverb),
        voices_before(XAudio2OpenCall::StartEngine).contains(Voice::Source),
        voices_before(call).no_duplicates(),
        voices_before(call).contains(Voice::Mastering) <==> place_of(call) > 2,
        voices_before(call).contains(Voice::Reverb) <==> place_of(call) > 7,
        voices_before(call).contains(Voice::Source) <==> place_of(call) > 8,
{
    let voices = voices_before(call);
    if voices.len() > 0 {
        assert(voices.contains(voices[0]));
    }
    if voices.len() > 1 {
        assert(voices.contains(voices[1]));
    }
    if voices.len() > 2 {
        assert(voices.contains(voices[2]));
    }
    let all = voices_before(XAudio2OpenCall::StartEngine);
    assert(all[0] == Voice::Mastering && all[1] == Voice::Reverb && all[2] == Voice::Source);
}

/// An opening goes on exactly where the call succeeded and handed out what it is
/// for. A thread whose mode was chosen otherwise is no failure.
pub proof fn law_an_opening_goes_on_after_success(
    call: XAudio2OpenCall,
    code: HResult,
    is_null: bool,
)
    ensures
        ({
            let hands_out = !(call is RoInitialize) && !(call is StartEngine) && !(call
                is ApplyEffects);
            let succeeds = code >= 0 || call is RoInitialize && code == -2147417850;
            &&& open_failure(call, code, is_null) is None <==> succeeds && !(is_null && hands_out)
            &&& null_message(call) is Some <==> hands_out
            &&& !succeeds ==> open_failure(call, code, is_null) == Some(
                crate::windows_native::failure_text(open_call_name(call), code),
            )
        }),
{
}

/// A call that fails is reported by the name of what it calls.
pub proof fn law_opening_calls_have_their_names(call: XAudio2OpenCall)
    ensures
        call is RoInitialize ==> open_call_name(call) == "RoInitialize"@,
        call is CreateEngine ==> open_call_name(call) == "XAudio2Create"@ && null_message(call)
            == Some("XAudio2 returned no engine"@),
        call is CreateMasteringVoice ==> open_call_name(call) == "IXAudio2::CreateMasteringVoice"@
            && null_message(call) == Some("XAudio2 returned no mastering voice"@),
        call is CreateReverbVoice ==> open_call_name(call)
            == "IXAudio2::CreateSubmixVoice(reverb)"@ && null_message(call) == Some(
            "XAudio2 returned no reverb submix voice"@,
        ),
        call is CreateSourceVoice ==> open_call_name(call) == "IXAudio2::CreateSourceVoice"@
            && null_message(call) == Some("XAudio2 returned no source voice"@),
        call is StartEngine ==> open_call_name(call) == "IXAudio2::StartEngine"@,
        call is CreateEqualizer || call is CreateEcho || call is CreateLimiter || call
            is CreateReverb ==> open_call_name(call) == "CreateFX"@ && null_message(call) == Some(
            "CreateFX returned no XAPO"@,
        ),
{
}

/// What came of an opening call: its result code, and whether what it handed out
/// is null.
pub struct XAudio2OpenReply {
    pub code: HResult,
    pub is_null: bool,
}

/// Whether reply number `i` leads from one of the openings to the next.
pub open spec fn is_open_step(
    openings: Seq<XAudio2Opening>,
    replies: Seq<XAudio2OpenReply>,
    steps: Seq<XAudio2OpenStep>,
    i: int,
) -> bool {
    &&& is_opened(openings[i], replies[i].code, replies[i].is_null, openings[i + 1], steps[i])
    &&& i + 1 < replies.len() ==> steps[i] is Call
}

/// Whether a sink is opened reply by reply, from the beginning on.
pub open spec fn is_open_run(
    openings: Seq<XAudio2Opening>,
    replies: Seq<XAudio2OpenReply>,
    steps: Seq<XAudio2OpenStep>,
) -> bool {
    &&& replies.len() > 0
    &&& openings.len() == replies.len() + 1
    &&& steps.len() == replies.len()
    &&& openings[0].call is RoInitialize
    &&& !openings[0].ro_owned
    &&& forall|i: int|
        0 <= i < replies.len() ==> #[trigger] is_open_step(openings, replies, steps, i)
}

proof fn lemma_opening(
    openings: Seq<XAudio2Opening>,
    replies: Seq<XAudio2OpenReply>,
    steps: Seq<XAudio2OpenStep>,
    n: int,
)
    requires
        is_open_run(openings, replies, steps),
        0 <= n < replies.len() || n == replies.len() && steps.last() is Call,
    ensures
        place_of(openings[n].call) == n,
        n > 0 ==> openings[n].ro_owned == (replies[0].code >= 0),
        n > 1 ==> replies[n - 1].code >= 0,
    decreases n,
{
    if n > 0 {
        assert(is_open_step(openings, replies, steps, n - 1));
        lemma_opening(openings, replies, steps, n - 1);
        law_a_sink_is_opened_by_all_calls(openings[n - 1].call);
        law_an_opening_goes_on_after_success(
            openings[n - 1].call,
            replies[n - 1].code,
            replies[n - 1].is_null,
        );
    }
}

/// The effects are applied only after each of the ten calls before them was made,
/// in order, and succeeded. An opening that fails before leaves nothing behind: it
/// destroys the voices that were made, the last one first, does not stop an engine
/// that was not started, and leaves the Windows Runtime exactly if it entered it.
pub proof fn law_a_failed_opening_leaves_nothing_behind(
    openings: Seq<XAudio2Opening>,
    replies: Seq<XAudio2OpenReply>,
    steps: Seq<XAudio2OpenStep>,
)
    requires
        is_open_run(openings, replies, steps),
    ensures
        ({
            let n = replies.len() as int;
            &&& steps.last() is Call && openings[n].call is ApplyEffects ==> n == 10 && forall|i: int|
                1 <= i < n ==> (#[trigger] replies[i]).code >= 0
            &&& steps.last() is Call || steps.last() is Failed
            &&& steps.last() matches XAudio2OpenStep::Failed {
                error,
                destroy,
                stop_engine,
                uninitialize,
            } ==> {
                &&& error.kind() == SinkErrorKind::NotConnected
                &&& !stop_engine
                &&& uninitialize == (n > 1 && replies[0].code >= 0)
                &&& destroy@.len() == (if n > 9 {
                    3int
                } else if n > 8 {
                    2int
                } else if n > 3 {
                    1int
                } else {
                    0int
                })
                &&& n > 9 ==> destroy@ == seq![Voice::Source, Voice::Reverb, Voice::Mastering]
                &&& n == 9 ==> destroy@ == seq![Voice::Reverb, Voice::Mastering]
                &&& 3 < n < 9 ==> destroy@ == seq![Voice::Mastering]
            }
        }),
{
    let n = replies.len() as int;
    let last = n - 1;
    assert(is_open_step(openings, replies, steps, last));
    lemma_opening(openings, replies, steps, last);
    let call = openings[last].call;
    if steps.last() is Failed {
        let voices = voices_before(call);
        if place_of(call) > 8 {
            assert(voices.reverse() =~= seq![Voice::Source, Voice::Reverb, Voice::Mastering]);
        } else if place_of(call) == 8 {
            assert(voices.reverse() =~= seq![Voice::Reverb, Voice::Mastering]);
        } else if place_of(call) > 2 {
            assert(voices.reverse() =~= seq![Voice::Mastering]);
        } else {
            assert(voices.reverse() =~= Seq::empty());
        }
    }
    if steps.last() is Call {
        lemma_opening(openings, replies, steps, n);
        assert forall|i: int| 1 <= i < n implies (#[trigger] replies[i]).code >= 0 by {
            lemma_opening(openings, replies, steps, i + 1);
        }
    }
}

} // verus!
