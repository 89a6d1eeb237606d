//! Opening and feeding a WASAPI render client: which call comes next, and what
//! its result code leads to. The calls themselves are made elsewhere.
use crate::sink::{SinkError, SinkErrorKind};
use crate::text;
use crate::windows_native::{
    check_hr, hresult_error, succeeded, HResult, WaveFormatEx, RPC_E_CHANGED_MODE,
};
use vstd::prelude::*;

verus! {

/// The endpoint that stands for whatever render device is the default.
pub const DEFAULT_RENDER_DEVICE: &'static str = "{E6327CAD-DCEC-4949-AE8A-991E976A79D2}";

/// The buffer that is asked for, in units of 100 ns: a tenth of a second.
pub const BUFFER_DURATION_100NS: i64 = 1_000_000;

/// Let the engine convert PCM, with its default quality.
pub const STREAM_FLAGS: u32 = 0x8800_0000;

/// The category of the stream: media.
pub const AUDIO_CATEGORY_MEDIA: i32 = 11;

/// The endpoint that is opened for a device identifier.
pub fn endpoint_for(device_id: &str) -> (endpoint: String)
    ensures
        endpoint@ == if device_id@.len() == 0 {
            DEFAULT_RENDER_DEVICE@
        } else {
            device_id@
        },
{
    if device_id.is_empty() {
        DEFAULT_RENDER_DEVICE.to_owned()
    } else {
        device_id.to_owned()
    }
}

/// The UTF-16 code units of a character.
pub open spec fn utf16_units(c: char) -> Seq<u16> {
    if (c as u32) < 0x1_0000 {
        seq![c as u16]
    } else {
        seq![
            (0xD800 + (c as u32 - 0x1_0000) / 0x400) as u16,
            (0xDC00 + (c as u32 - 0x1_0000) % 0x400) as u16,
        ]
    }
}

/// The UTF-16 form of a text.
pub open spec fn utf16(text: Seq<char>) -> Seq<u16>
    decreases text.len(),
{
    if text.len() == 0 {
        Seq::empty()
    } else {
        utf16(text.drop_last()) + utf16_units(text.last())
    }
}

fn push_units(wide: &mut Vec<u16>, c: char)
    ensures
        final(wide)@ == old(wide)@ + utf16_units(c),
{
    let code: u32 = c as u32;
    if code < 0x1_0000 {
        wide.push(code as u16);
    } else {
        let offset: u32 = code - 0x1_0000;
        wide.push((0xD800 + offset / 0x400) as u16);
        wide.push((0xDC00 + offset % 0x400) as u16);
    }
    assert(wide@ =~= old(wide)@ + utf16_units(c));
}

/// The UTF-16 form of a text, closed by a zero.
pub fn to_wide(text: &str) -> (wide: Vec<u16>)
    ensures
        wide@ == utf16(text@).push(0),
{
    let chars = text::to_chars(text);
    let mut wide: Vec<u16> = Vec::new();
    let mut i: usize = 0;
    assert(chars@.take(0) =~= Seq::<char>::empty());
    while i < chars.len()
        invariant
            i <= chars@.len(),
            wide@ == utf16(chars@.take(i as int)),
        decreases chars@.len() - i,
    {
        let ghost upto = chars@.take(i + 1);
        assert(upto.drop_last() =~= chars@.take(i as int));
        push_units(&mut wide, chars[i]);
        assert(upto.last() == chars@[i as int]);
        i = i + 1;
    }
    assert(chars@.take(chars@.len() as int) =~= chars@);
    wide.push(0);
    wide
}

/// The calls with which a client is opened, in their order.
#[derive(Debug, Clone, Copy, PartialEq, Eq, Structural)]
pub enum WasapiOpenCall {
    RoInitialize,
    ActivateAudioInterfaceAsync,
    AwaitActivation,
    QueryAudioClient2,
    SetClientProperties,
    Initialize,
    GetBufferSize,
    GetService,
}

/// How the wait for the completion of the activation ended.
#[derive(Debug, Clone, Copy, PartialEq, Eq, Structural)]
pub enum ActivationWait {
    LockPoisoned,
    WaitFailed,
    TimedOut,
    NoResult,
    Completed,
}

/// What came of an opening call: its result code, whether the pointer that it
/// hands out is null, the number that it hands out, and how the wait ended.
#[derive(Debug, Clone, Copy, PartialEq, Eq, Structural)]
pub struct WasapiOpenReply {
    pub code: HResult,
    pub is_null: bool,
    pub value: u32,
    pub wait: ActivationWait,
}

/// A client that is being opened.
#[derive(Debug, Clone, Copy, PartialEq, Eq, Structural)]
pub struct WasapiOpening {
    pub call: WasapiOpenCall,
    pub ro_initialized: bool,
    pub buffer_frames: u32,
    pub channels: u16,
}

/// Where an opening stands after a call.
#[derive(Debug)]
pub enum WasapiOpenStep {
    /// The call that `WasapiOpening` names is due.
    Call,
    /// The client is open.
    Ready(WasapiSink),
    /// The client cannot be opened. The Windows Runtime is to be left again if
    /// `uninitialize` is set.
    Failed { error: SinkError, uninitialize: bool },
}

/// The name by which a failing opening call is reported.
pub open spec fn open_call_name(call: WasapiOpenCall) -> Seq<char> {
    match call {
        WasapiOpenCall::RoInitialize => "RoInitialize"@,
        WasapiOpenCall::ActivateAudioInterfaceAsync => "ActivateAudioInterfaceAsync"@,
        WasapiOpenCall::AwaitActivation => "WASAPI activation"@,
        WasapiOpenCall::QueryAudioClient2 => "IAudioClient2"@,
        WasapiOpenCall::SetClientProperties => "IAudioClient2::SetClientProperties"@,
        WasapiOpenCall::Initialize => "IAudioClient::Initialize"@,
        WasapiOpenCall::GetBufferSize => "IAudioClient::GetBufferSize"@,
        WasapiOpenCall::GetService => "IAudioClient::GetService"@,
    }
}

/// The message of an opening that fails, or nothing if the reply lets it go on.
pub open spec fn open_failure(call: WasapiOpenCall, reply: WasapiOpenReply) -> Option<Seq<char>> {
    let code_text = crate::windows_native::failure_text(open_call_name(call), reply.code);
    match call {
        WasapiOpenCall::RoInitialize => if reply.code >= 0 || reply.code == RPC_E_CHANGED_MODE {
            None
        } else {
            Some(code_text)
        },
        WasapiOpenCall::ActivateAudioInterfaceAsync => if reply.code < 0 {
            Some(code_text)
        } else if reply.is_null {
            Some("WASAPI returned no activation operation"@)
        } else {
            None
        },
        WasapiOpenCall::AwaitActivation => match reply.wait {
            ActivationWait::LockPoisoned => Some("WASAPI activation lock was poisoned"@),
            ActivationWait::WaitFailed => Some("WASAPI activation wait failed"@),
            ActivationWait::TimedOut => Some("WASAPI activation timed out"@),
            ActivationWait::NoResult => Some("WASAPI returned no activation result"@),
            ActivationWait::Completed => if reply.code < 0 {
                Some(code_text)
            } else if reply.is_null {
                Some("WASAPI returned no IAudioClient"@)
            } else {
                None
            },
        },
        WasapiOpenCall::QueryAudioClient2 => None,
        WasapiOpenCall::GetService => if reply.code < 0 {
            Some(code_text)
        } else if reply.is_null {
            Some("WASAPI returned no IAudioRenderClient"@)
        } else {
            None
        },
        _ => if reply.code < 0 {
            Some(code_text)
        } else {
            None
        },
    }
}

/// Why an opening fails can be handed to C.
pub proof fn law_failed_openings_can_be_told(call: WasapiOpenCall, reply: WasapiOpenReply)
    ensures
        open_failure(call, reply) matches Some(message) ==> crate::text::has_no_nul(message) && message.len() > 0,
{
    reveal_strlit("RoInitialize");
    reveal_strlit("ActivateAudioInterfaceAsync");
    reveal_strlit("WASAPI activation");
    reveal_strlit("IAudioClient2");
    reveal_strlit("IAudioClient2::SetClientProperties");
    reveal_strlit("IAudioClient::Initialize");
    reveal_strlit("IAudioClient::GetBufferSize");
    reveal_strlit("IAudioClient::GetService");
    reveal_strlit("WASAPI returned no activation operation");
    reveal_strlit("WASAPI activation lock was poisoned");
    reveal_strlit("WASAPI activation wait failed");
    reveal_strlit("WASAPI activation timed out");
    reveal_strlit("WASAPI returned no activation result");
    reveal_strlit("WASAPI returned no IAudioClient");
    reveal_strlit("WASAPI returned no IAudioRenderClient");
    crate::windows_native::law_failures_can_be_told(open_call_name(call), reply.code);
}

/// The call after one that let the opening go on; nothing after the last. The
/// stream properties are set only on clients that have the second interface.
pub open spec fn open_call_after(call: WasapiOpenCall, reply: WasapiOpenReply) -> Option<
    WasapiOpenCall,
> {
    match call {
        WasapiOpenCall::RoInitialize => Some(WasapiOpenCall::ActivateAudioInterfaceAsync),
        WasapiOpenCall::ActivateAudioInterfaceAsync => Some(WasapiOpenCall::AwaitActivation),
        WasapiOpenCall::AwaitActivation => Some(WasapiOpenCall::QueryAudioClient2),
        WasapiOpenCall::QueryAudioClient2 => if reply.code >= 0 && !reply.is_null {
            Some(WasapiOpenCall::SetClientProperties)
        } else {
            Some(WasapiOpenCall::Initialize)
        },
        WasapiOpenCall::SetClientProperties => Some(WasapiOpenCall::Initialize),
        WasapiOpenCall::Initialize => Some(WasapiOpenCall::GetBufferSize),
        WasapiOpenCall::GetBufferSize => Some(WasapiOpenCall::GetService),
        WasapiOpenCall::GetService => None,
    }
}

/// Whether an opening is what the reply to the call that was due makes of it.
pub open spec fn is_opened(
    before: WasapiOpening,
    reply: WasapiOpenReply,
    after: WasapiOpening,
    step: WasapiOpenStep,
) -> bool {
    match open_failure(before.call, reply) {
        Some(message) => {
            &&& step matches WasapiOpenStep::Failed { error, uninitialize }
            &&& error.is(SinkErrorKind::NotConnected, message)
            &&& uninitialize == before.ro_initialized
            &&& after == before
        },
        None => {
            &&& after.channels == before.channels
            &&& after.ro_initialized == if before.call
                == WasapiOpenCall::RoInitialize {
                reply.code >= 0
            } else {
                before.ro_initialized
            }
            &&& after.buffer_frames == if before.call
                == WasapiOpenCall::GetBufferSize {
                reply.value
            } else {
                before.buffer_frames
            }
            &&& match open_call_after(before.call, reply) {
                Some(call) => step is Call && after.call == call,
                None => step == WasapiOpenStep::Ready(
                    WasapiSink {
                        buffer_frames: before.buffer_frames,
                        channels: before.channels,
                        running: false,
                        ro_initialized: before.ro_initialized,
                    },
                ),
            }
        },
    }
}

impl WasapiOpening {
    /// Starts to open a client for the given number of channels.
    pub fn begin(channels: u16) -> (opening: WasapiOpening)
        ensures
            opening == (WasapiOpening {
                call: WasapiOpenCall::RoInitialize,
                ro_initialized: false,
                buffer_frames: 0,
                channels,
            }),
    {
        WasapiOpening {
            call: WasapiOpenCall::RoInitialize,
            ro_initialized: false,
            buffer_frames: 0,
            channels,
        }
    }

    /// The message for a reply that ends the opening.
    fn failure(&self, reply: &WasapiOpenReply) -> (error: Option<SinkError>)
        ensures
            match open_failure(self.call, *reply) {
                Some(message) => error matches Some(e) && e.is(
                    SinkErrorKind::NotConnected,
                    message,
                ),
                None => error is None,
            },
    {
        let (name, null_message): (&str, Option<&str>) = match self.call {
            WasapiOpenCall::RoInitialize => {
                if succeeded(reply.code) || reply.code == RPC_E_CHANGED_MODE {
                    return None;
                }
                ("RoInitialize", None)
            },
            WasapiOpenCall::ActivateAudioInterfaceAsync => (
                "ActivateAudioInterfaceAsync",
                Some("WASAPI returned no activation operation"),
            ),
            WasapiOpenCall::AwaitActivation => {
                match reply.wait {
                    ActivationWait::LockPoisoned => {
                        return Some(
                            SinkError::not_connected("WASAPI activation lock was poisoned"),
                        );
                    },
                    ActivationWait::WaitFailed => {
                        return Some(SinkError::not_connected("WASAPI activation wait failed"));
                    },
                    ActivationWait::TimedOut => {
                        return Some(SinkError::not_connected("WASAPI activation timed out"));
                    },
                    ActivationWait::NoResult => {
                        return Some(
                            SinkError::not_connected("WASAPI returned no activation result"),
                        );
                    },
                    ActivationWait::Completed => {},
                }
                ("WASAPI activation", Some("WASAPI returned no IAudioClient"))
            },
            WasapiOpenCall::QueryAudioClient2 => {
                return None;
            },
            WasapiOpenCall::SetClientProperties => ("IAudioClient2::SetClientProperties", None),
            WasapiOpenCall::Initialize => ("IAudioClient::Initialize", None),
            WasapiOpenCall::GetBufferSize => ("IAudioClient::GetBufferSize", None),
            WasapiOpenCall::GetService => (
                "IAudioClient::GetService",
                Some("WASAPI returned no IAudioRenderClient"),
            ),
        };
        if !succeeded(reply.code) {
            return Some(hresult_error(name, reply.code));
        }
        match null_message {
            Some(message) => if reply.is_null {
                Some(SinkError::not_connected(message))
            } else {
                None
            },
            None => None,
        }
    }

    /// Takes the reply to the call that was due.
    pub fn advance(&mut self, reply: WasapiOpenReply) -> (step: WasapiOpenStep)
        ensures
            is_opened(*old(self), reply, *final(self), step),
    {
        if let Some(error) = self.failure(&reply) {
            return WasapiOpenStep::Failed { error, uninitialize: self.ro_initialized };
        }
        self.call = match self.call {
            WasapiOpenCall::RoInitialize => {
                self.ro_initialized = succeeded(reply.code);
                WasapiOpenCall::ActivateAudioInterfaceAsync
            },
            WasapiOpenCall::ActivateAudioInterfaceAsync => WasapiOpenCall::AwaitActivation,
            WasapiOpenCall::AwaitActivation => WasapiOpenCall::QueryAudioClient2,
            WasapiOpenCall::QueryAudioClient2 => if succeeded(reply.code) && !reply.is_null {
                WasapiOpenCall::SetClientProperties
            } else {
                WasapiOpenCall::Initialize
            },
            WasapiOpenCall::SetClientProperties => WasapiOpenCall::Initialize,
            WasapiOpenCall::Initialize => WasapiOpenCall::GetBufferSize,
            WasapiOpenCall::GetBufferSize => {
                self.buffer_frames = reply.value;
                WasapiOpenCall::GetService
            },
            WasapiOpenCall::GetService => {
                return WasapiOpenStep::Ready(
                    WasapiSink {
                        buffer_frames: self.buffer_frames,
                        channels: self.channels,
                        running: false,
                        ro_initialized: self.ro_initialized,
                    },
                );
            },
        };
        WasapiOpenStep::Call
    }
}

/// An open client.
#[derive(Debug, Clone, Copy, PartialEq, Eq, Structural)]
pub struct WasapiSink {
    pub buffer_frames: u32,
    pub channels: u16,
    pub running: bool,
    pub ro_initialized: bool,
}

/// What a run of calls on an open client is for.
#[derive(Debug, Clone, Copy, PartialEq, Eq, Structural)]
pub enum WasapiGoal {
    Start,
    Stop,
    Flush,
    Write,
}

/// The call that is due in a run; `Sleep` is a pause of a millisecond.
#[derive(Debug, Clone, Copy, PartialEq, Eq, Structural)]
pub enum WasapiCall {
    Start,
    Stop,
    Reset,
    GetCurrentPadding,
    Sleep,
    GetBuffer,
    ReleaseBuffer,
}

/// A run of calls on an open client.
#[derive(Debug, Clone, Copy, PartialEq, Eq, Structural)]
pub struct WasapiRun {
    pub goal: WasapiGoal,
    pub call: WasapiCall,
    /// Whether the client is started again after it was reset.
    pub restart: bool,
    /// The frames of the packet that the client has.
    pub frame_offset: usize,
    pub total_frames: usize,
    /// The frames that are copied between `GetBuffer` and `ReleaseBuffer`.
    pub frames: usize,
}

/// Where a run stands after a call.
#[derive(Debug)]
pub enum WasapiStep {
    /// The call that `WasapiRun` names is due.
    Call,
    Done,
    Failed(SinkError),
}

/// The name by which a failing call is reported.
pub open spec fn call_name(call: WasapiCall) -> Seq<char> {
    match call {
        WasapiCall::Start => "IAudioClient::Start"@,
        WasapiCall::Stop => "IAudioClient::Stop"@,
        WasapiCall::Reset => "IAudioClient::Reset"@,
        WasapiCall::GetCurrentPadding => "IAudioClient::GetCurrentPadding"@,
        WasapiCall::Sleep => "Sleep"@,
        WasapiCall::GetBuffer => "IAudioRenderClient::GetBuffer"@,
        WasapiCall::ReleaseBuffer => "IAudioRenderClient::ReleaseBuffer"@,
    }
}

impl WasapiRun {
    /// The counts of a run make sense together.
    pub open spec fn wf(self) -> bool {
        &&& self.frame_offset <= self.total_frames
        &&& (self.goal == WasapiGoal::Write && self.call != WasapiCall::Start ==> self.frame_offset
            < self.total_frames)
        &&& (self.call == WasapiCall::GetBuffer || self.call == WasapiCall::ReleaseBuffer ==> 0
            < self.frames <= self.total_frames - self.frame_offset)
        &&& (self.call == WasapiCall::Start ==> self.goal != WasapiGoal::Stop)
        &&& (self.call == WasapiCall::Stop || self.call == WasapiCall::Reset ==> self.goal
            == WasapiGoal::Stop || self.goal == WasapiGoal::Flush)
        &&& (self.call == WasapiCall::Stop || self.call == WasapiCall::Reset ==> (self.restart ==>
            self.goal == WasapiGoal::Flush))
        &&& (self.call == WasapiCall::GetCurrentPadding || self.call == WasapiCall::Sleep
            || self.call == WasapiCall::GetBuffer || self.call == WasapiCall::ReleaseBuffer
            ==> self.goal == WasapiGoal::Write)
    }

    /// What a fresh run for `goal` that starts with `call` looks like.
    pub open spec fn fresh(
        goal: WasapiGoal,
        call: WasapiCall,
        restart: bool,
        total_frames: usize,
    ) -> WasapiRun {
        WasapiRun { goal, call, restart, frame_offset: 0, total_frames, frames: 0 }
    }
}

/// The frames that fit into the client's buffer while `padding` are in it.
pub open spec fn room(buffer_frames: u32, padding: u32) -> int {
    if padding < buffer_frames {
        buffer_frames - padding
    } else {
        0
    }
}

/// The run that begins for a goal; nothing where nothing is to be done.
pub open spec fn begun_run(sink: WasapiSink, goal: WasapiGoal, total_frames: usize) -> Option<
    WasapiRun,
> {
    match goal {
        WasapiGoal::Start => if sink.running {
            None
        } else {
            Some(WasapiRun::fresh(goal, WasapiCall::Start, false, 0))
        },
        WasapiGoal::Stop => if sink.running {
            Some(WasapiRun::fresh(goal, WasapiCall::Stop, false, 0))
        } else {
            None
        },
        WasapiGoal::Flush => Some(
            WasapiRun::fresh(
                goal,
                if sink.running {
                    WasapiCall::Stop
                } else {
                    WasapiCall::Reset
                },
                sink.running,
                0,
            ),
        ),
        WasapiGoal::Write => if !sink.running {
            Some(WasapiRun::fresh(goal, WasapiCall::Start, false, total_frames))
        } else if total_frames > 0 {
            Some(WasapiRun::fresh(goal, WasapiCall::GetCurrentPadding, false, total_frames))
        } else {
            None
        },
    }
}

/// Whether a client and a run are what the result code of the call that was due
/// makes of them. `padding` is the number that the call handed out.
pub open spec fn is_advanced(
    sink: WasapiSink,
    run: WasapiRun,
    code: HResult,
    padding: u32,
    after: WasapiSink,
    next: WasapiRun,
    step: WasapiStep,
) -> bool {
    &&& after.buffer_frames == sink.buffer_frames
    &&& after.channels == sink.channels
    &&& after.ro_initialized == sink.ro_initialized
    &&& next.goal == run.goal
    &&& next.restart == run.restart
    &&& next.total_frames == run.total_frames
    &&& code < 0 && run.call != WasapiCall::Sleep <==> step is Failed
    &&& step matches WasapiStep::Failed(error) ==> {
        &&& error.is(
            SinkErrorKind::NotConnected,
            crate::windows_native::failure_text(call_name(run.call), code),
        )
        &&& next == run
        &&& after.running == sink.running
    }
    &&& !(step is Failed) ==> match run.call {
        WasapiCall::Start => {
            &&& after.running
            &&& next.frame_offset == run.frame_offset
            &&& if run.goal == WasapiGoal::Write && run.frame_offset < run.total_frames {
                step is Call && next.call == WasapiCall::GetCurrentPadding
            } else {
                step is Done
            }
        },
        WasapiCall::Stop => {
            &&& !after.running
            &&& step is Call
            &&& next.call == WasapiCall::Reset
        },
        WasapiCall::Reset => {
            &&& after.running == sink.running
            &&& if run.restart {
                step is Call && next.call == WasapiCall::Start
            } else {
                step is Done
            }
        },
        WasapiCall::GetCurrentPadding => {
            let available = room(sink.buffer_frames, padding);
            let remaining = run.total_frames - run.frame_offset;
            &&& after.running == sink.running
            &&& step is Call
            &&& next.frame_offset == run.frame_offset
            &&& if available == 0 {
                next.call == WasapiCall::Sleep
            } else {
                &&& next.call == WasapiCall::GetBuffer
                &&& next.frames == if available < remaining {
                    available
                } else {
                    remaining
                }
            }
        },
        WasapiCall::Sleep => {
            &&& after.running == sink.running
            &&& step is Call
            &&& next.call == WasapiCall::GetCurrentPadding
            &&& next.frame_offset == run.frame_offset
        },
        WasapiCall::GetBuffer => {
            &&& after.running == sink.running
            &&& step is Call
            &&& next == (WasapiRun { call: WasapiCall::ReleaseBuffer, ..run })
        },
        WasapiCall::ReleaseBuffer => {
            &&& after.running == sink.running
            &&& next.frame_offset == run.frame_offset + run.frames
            &&& if next.frame_offset < run.total_frames {
                step is Call && next.call == WasapiCall::GetCurrentPadding
            } else {
                step is Done
            }
        },
    }
}

impl WasapiSink {
    /// Starts the client; nothing is to be done if it runs.
    pub fn start(&self) -> (run: Option<WasapiRun>)
        ensures
            run == begun_run(*self, WasapiGoal::Start, 0),
            run matches Some(r) ==> r.wf(),
    {
        if self.running {
            return None;
        }
        Some(
            WasapiRun {
                goal: WasapiGoal::Start,
                call: WasapiCall::Start,
                restart: false,
                frame_offset: 0,
                total_frames: 0,
                frames: 0,
            },
        )
    }

    /// Stops the client and throws away what it has not played; nothing is to
    /// be done if it does not run.
    pub fn stop(&self) -> (run: Option<WasapiRun>)
        ensures
            run == begun_run(*self, WasapiGoal::Stop, 0),
            run matches Some(r) ==> r.wf(),
    {
        if !self.running {
            return None;
        }
        Some(
            WasapiRun {
                goal: WasapiGoal::Stop,
                call: WasapiCall::Stop,
                restart: false,
                frame_offset: 0,
                total_frames: 0,
                frames: 0,
            },
        )
    }

    /// Throws away what the client has not played. It goes on afterwards if it
    /// was running.
    pub fn flush(&self) -> (run: WasapiRun)
        ensures
            Some(run) == begun_run(*self, WasapiGoal::Flush, 0),
            run.wf(),
    {
        WasapiRun {
            goal: WasapiGoal::Flush,
            call: if self.running {
                WasapiCall::Stop
            } else {
                WasapiCall::Reset
            },
            restart: self.running,
            frame_offset: 0,
            total_frames: 0,
            frames: 0,
        }
    }

    /// Writes a packet of `sample_count` samples, and starts the client first
    /// if it does not run. Nothing is to be done for an empty packet on a
    /// running client.
    pub fn write_f32(&self, sample_count: usize) -> (run: Result<Option<WasapiRun>, SinkError>)
        requires
            self.channels > 0,
        ensures
            run is Err <==> sample_count % (self.channels as usize) != 0,
            run matches Err(error) ==> error.is(
                SinkErrorKind::InvalidParams,
                "WASAPI packet was not aligned to a complete audio frame"@,
            ),
            run matches Ok(r) ==> r == begun_run(
                *self,
                WasapiGoal::Write,
                sample_count / (self.channels as usize),
            ),
            run matches Ok(Some(r)) ==> r.wf() && r.total_frames * self.channels == sample_count,
    {
        let channels: usize = self.channels as usize;
        if sample_count % channels != 0 {
            return Err(
                SinkError::invalid_params(
                    "WASAPI packet was not aligned to a complete audio frame",
                ),
            );
        }
        let total_frames: usize = sample_count / channels;
        proof {
            vstd::arithmetic::div_mod::lemma_fundamental_div_mod(
                sample_count as int,
                channels as int,
            );
            assert(total_frames * channels == sample_count) by (nonlinear_arith)
                requires
                    sample_count == channels * total_frames,
            ;
            assert(total_frames > 0 <==> sample_count > 0) by (nonlinear_arith)
                requires
                    total_frames * channels == sample_count,
                    channels > 0,
                    total_frames >= 0,
            ;
        }
        if self.running && total_frames == 0 {
            return Ok(None);
        }
        Ok(
            Some(
                WasapiRun {
                    goal: WasapiGoal::Write,
                    call: if self.running {
                        WasapiCall::GetCurrentPadding
                    } else {
                        WasapiCall::Start
                    },
                    restart: false,
                    frame_offset: 0,
                    total_frames,
                    frames: 0,
                },
            ),
        )
    }

    /// The samples of the packet that are copied between `GetBuffer` and
    /// `ReleaseBuffer`: where they start, and how many they are.
    pub fn copy_range(&self, run: &WasapiRun) -> (range: (usize, usize))
        requires
            run.wf(),
            run.call == WasapiCall::ReleaseBuffer,
            run.total_frames * self.channels <= usize::MAX,
        ensures
            range.0 == run.frame_offset * self.channels,
            range.1 == run.frames * self.channels,
            range.0 + range.1 <= run.total_frames * self.channels,
    {
        proof {
            assert(run.frame_offset * self.channels + run.frames * self.channels
                <= run.total_frames * self.channels) by (nonlinear_arith)
                requires
                    run.frame_offset + run.frames <= run.total_frames,
                    self.channels >= 0,
            ;
            assert(0 <= run.frames * self.channels) by (nonlinear_arith)
                requires
                    run.frames >= 0,
                    self.channels >= 0,
            ;
            assert(0 <= run.frame_offset * self.channels) by (nonlinear_arith)
                requires
                    run.frame_offset >= 0,
                    self.channels >= 0,
            ;
        }
        (run.frame_offset * self.channels as usize, run.frames * self.channels as usize)
    }

    /// Takes the result code of the call that was due, and the number that it
    /// handed out.
    pub fn advance(&mut self, run: &mut WasapiRun, code: HResult, padding: u32) -> (step:
        WasapiStep)
        requires
            old(run).wf(),
        ensures
            step is Call ==> final(run).wf(),
            is_advanced(*old(self), *old(run), code, padding, *final(self), *final(run), step),
    {
        let name: &str = match run.call {
            WasapiCall::Start => "IAudioClient::Start",
            WasapiCall::Stop => "IAudioClient::Stop",
            WasapiCall::Reset => "IAudioClient::Reset",
            WasapiCall::GetCurrentPadding => "IAudioClient::GetCurrentPadding",
            WasapiCall::Sleep => {
                run.call = WasapiCall::GetCurrentPadding;
                return WasapiStep::Call;
            },
            WasapiCall::GetBuffer => "IAudioRenderClient::GetBuffer",
            WasapiCall::ReleaseBuffer => "IAudioRenderClient::ReleaseBuffer",
        };
        if let Err(error) = check_hr(name, code) {
            return WasapiStep::Failed(error);
        }
        match run.call {
            WasapiCall::Start => {
                self.running = true;
                if run.goal != WasapiGoal::Write || run.frame_offset == run.total_frames {
                    return WasapiStep::Done;
                }
                run.call = WasapiCall::GetCurrentPadding;
            },
            WasapiCall::Stop => {
                self.running = false;
                run.call = WasapiCall::Reset;
            },
            WasapiCall::Reset => {
                if !run.restart {
                    return WasapiStep::Done;
                }
                run.call = WasapiCall::Start;
            },
            WasapiCall::GetCurrentPadding => {
                let available: usize = self.buffer_frames.saturating_sub(padding) as usize;
                if available == 0 {
                    run.call = WasapiCall::Sleep;
                } else {
                    let remaining: usize = run.total_frames - run.frame_offset;
                    run.frames = if available < remaining {
                        available
                    } else {
                        remaining
                    };
                    run.call = WasapiCall::GetBuffer;
                }
            },
            WasapiCall::GetBuffer => {
                run.call = WasapiCall::ReleaseBuffer;
            },
            _ => {
                run.frame_offset = run.frame_offset + run.frames;
                if run.frame_offset == run.total_frames {
                    return WasapiStep::Done;
                }
                run.call = WasapiCall::GetCurrentPadding;
            },
        }
        WasapiStep::Call
    }
}

/// The format in which a client is fed.
pub fn stream_format(sample_rate: u32, channels: u16) -> (format: WaveFormatEx)
    requires
        channels * 4 <= u16::MAX,
        sample_rate * (channels * 4) <= u32::MAX,
    ensures
        format.channels == channels,
        format.samples_per_sec == sample_rate,
        format.block_align == channels * 4,
        format.average_bytes_per_sec == sample_rate * (channels * 4),
        format.format_tag == 3,
        format.bits_per_sample == 32,
        format.extra_size == 0,
{
    WaveFormatEx::float32(sample_rate, channels)
}

/// The samples that reached the client's buffer over the copies of a run.
pub open spec fn copied<T>(packet: Seq<T>, channels: int, copies: Seq<WasapiRun>) -> Seq<T>
    decreases copies.len(),
{
    if copies.len() == 0 {
        Seq::empty()
    } else {
        let last = copies.last();
        copied(packet, channels, copies.drop_last()) + packet.subrange(
            last.frame_offset * channels,
            (last.frame_offset + last.frames) * channels,
        )
    }
}

/// Whether copy number `k` starts where the one before it ended, the first at
/// the start of the packet.
pub open spec fn follows(copies: Seq<WasapiRun>, k: int) -> bool {
    copies[k].frame_offset == if k == 0 {
        0
    } else {
        copies[k - 1].frame_offset + copies[k - 1].frames
    }
}

/// Whether each copy starts where the one before it ended.
pub open spec fn consecutive(copies: Seq<WasapiRun>) -> bool {
    forall|k: int| 0 <= k < copies.len() ==> #[trigger] follows(copies, k)
}

proof fn lemma_copied_prefix<T>(packet: Seq<T>, channels: int, copies: Seq<WasapiRun>)
    requires
        copies.len() > 0,
        consecutive(copies),
        channels > 0,
        (copies.last().frame_offset + copies.last().frames) * channels <= packet.len(),
    ensures
        copied(packet, channels, copies) == packet.take(
            (copies.last().frame_offset + copies.last().frames) * channels,
        ),
    decreases copies.len(),
{
    let last = copies.last();
    let head = copies.drop_last();
    let from = last.frame_offset * channels;
    let to = (last.frame_offset + last.frames) * channels;
    assert(0 <= from <= to) by (nonlinear_arith)
        requires
            from == last.frame_offset * channels,
            to == (last.frame_offset + last.frames) * channels,
            channels > 0,
            last.frame_offset >= 0,
            last.frames >= 0,
    ;
    assert(follows(copies, copies.len() - 1));
    if head.len() > 0 {
        assert forall|k: int| 0 <= k < head.len() implies #[trigger] follows(head, k) by {
            assert(follows(copies, k));
        }
        assert(head.last() == copies[copies.len() - 2]);
        assert(head.last().frame_offset + head.last().frames == last.frame_offset);
        lemma_copied_prefix(packet, channels, head);
    } else {
        assert(from == 0) by (nonlinear_arith)
            requires
                from == last.frame_offset * channels,
                last.frame_offset == 0,
        ;
    }
    assert(copied(packet, channels, head) =~= packet.take(from));
    assert(copied(packet, channels, copies) =~= packet.take(to));
}

/// A packet reaches the client whole, each sample once and in order: the copies
/// of a run that wrote all frames of the packet, put one after the other, are
/// the packet.
pub proof fn law_packet_is_written_whole<T>(
    packet: Seq<T>,
    channels: int,
    copies: Seq<WasapiRun>,
)
    requires
        copies.len() > 0,
        consecutive(copies),
        channels > 0,
        copies.last().frame_offset + copies.last().frames == copies.last().total_frames,
        copies.last().total_frames * channels == packet.len(),
    ensures
        copied(packet, channels, copies) == packet,
{
    lemma_copied_prefix(packet, channels, copies);
    assert(packet.take(packet.len() as int) =~= packet);
}

/// A text is written unit by unit, and each character in one unit, or in two that
/// give it back: the first half of the pair has its upper ten bits and the second
/// the lower ten.
pub proof fn law_wide_texts_give_the_text_back(a: Seq<char>, b: Seq<char>, c: char)
    ensures
        utf16(a + b) == utf16(a) + utf16(b),
        utf16(seq![c]) == utf16_units(c),
        (c as u32) <= 0xffff ==> utf16_units(c).len() == 1 && utf16_units(c)[0] == c as u32,
        (c as u32) > 0xffff ==> {
            let units = utf16_units(c);
            &&& units.len() == 2
            &&& 0xd800 <= units[0] <= 0xdbff
            &&& 0xdc00 <= units[1] <= 0xdfff
            &&& 0x1_0000 + (units[0] - 0xd800) * 0x400 + (units[1] - 0xdc00) == c as u32
        },
    decreases b.len(),
{
    let one = seq![c];
    assert(one.drop_last() =~= Seq::empty());
    assert(utf16(one.drop_last()) == Seq::<u16>::empty());
    assert(utf16(one) =~= utf16_units(c));
    if b.len() == 0 {
        assert(a + b =~= a);
        assert(utf16(a) + utf16(b) =~= utf16(a));
    } else {
        law_wide_texts_give_the_text_back(a, b.drop_last(), c);
        assert((a + b).drop_last() =~= a + b.drop_last());
        assert((a + b).last() == b.last());
        assert(utf16(a + b) =~= utf16(a) + utf16(b));
    }
}

/// The place of a call among those that open a client.
pub open spec fn place_of(call: WasapiOpenCall) -> int {
    match call {
        WasapiOpenCall::RoInitialize => 0,
        WasapiOpenCall::ActivateAudioInterfaceAsync => 1,
        WasapiOpenCall::AwaitActivation => 2,
        WasapiOpenCall::QueryAudioClient2 => 3,
        WasapiOpenCall::SetClientProperties => 4,
        WasapiOpenCall::Initialize => 5,
        WasapiOpenCall::GetBufferSize => 6,
        WasapiOpenCall::GetService => 7,
    }
}

/// A client is opened by its calls one after the other. Only the properties of
/// the stream are left out, and that where the client lacks the interface for
/// them.
pub proof fn law_a_client_is_opened_by_all_calls(call: WasapiOpenCall, reply: WasapiOpenReply)
    ensures
        open_call_after(call, reply) is None <==> call is GetService,
        open_call_after(call, reply) matches Some(next) ==> {
            &&& place_of(next) == place_of(call) + 1 || call is QueryAudioClient2 && next
                is Initialize
            &&& call is QueryAudioClient2 ==> (next is SetClientProperties <==> reply.code >= 0
                && !reply.is_null)
        },
{
}

/// An opening goes on exactly where the call succeeded and handed out what it is
/// for. A thread whose mode was chosen otherwise is no failure, nor is a client
/// without the second interface.
pub proof fn law_an_opening_goes_on_after_success(call: WasapiOpenCall, reply: WasapiOpenReply)
    ensures
        ({
            let hands_out = call is ActivateAudioInterfaceAsync || call is AwaitActivation || call
                is GetService;
            let waited = call is AwaitActivation && !(reply.wait is Completed);
            let succeeds = reply.code >= 0 || call is RoInitialize && reply.code == -2147417850;
            &&& open_failure(call, reply) is None <==> call is QueryAudioClient2 || !waited
                && succeeds && !(hands_out && reply.is_null)
            &&& !waited && !succeeds && !(call is QueryAudioClient2) ==> open_failure(call, reply)
                == Some(crate::windows_native::failure_text(open_call_name(call), reply.code))
            &&& call is AwaitActivation ==> {
                &&& reply.wait is LockPoisoned ==> open_failure(call, reply) == Some(
                    "WASAPI activation lock was poisoned"@,
                )
                &&& reply.wait is WaitFailed ==> open_failure(call, reply) == Some(
                    "WASAPI activation wait failed"@,
                )
                &&& reply.wait is TimedOut ==> open_failure(call, reply) == Some(
                    "WASAPI activation timed out"@,
                )
                &&& reply.wait is NoResult ==> open_failure(call, reply) == Some(
                    "WASAPI returned no activation result"@,
                )
            }
        }),
{
}

/// A call that fails is reported by the name of what it calls.
pub proof fn law_calls_have_their_names(opening: WasapiOpenCall, call: WasapiCall)
    ensures
        opening is RoInitialize ==> open_call_name(opening) == "RoInitialize"@,
        opening is ActivateAudioInterfaceAsync ==> open_call_name(opening)
            == "ActivateAudioInterfaceAsync"@,
        opening is AwaitActivation ==> open_call_name(opening) == "WASAPI activation"@,
        opening is SetClientProperties ==> open_call_name(opening)
            == "IAudioClient2::SetClientProperties"@,
        opening is Initialize ==> open_call_name(opening) == "IAudioClient::Initialize"@,
        opening is GetBufferSize ==> open_call_name(opening) == "IAudioClient::GetBufferSize"@,
        opening is GetService ==> open_call_name(opening) == "IAudioClient::GetService"@,
        call is Start ==> call_name(call) == "IAudioClient::Start"@,
        call is Stop ==> call_name(call) == "IAudioClient::Stop"@,
        call is Reset ==> call_name(call) == "IAudioClient::Reset"@,
        call is GetCurrentPadding ==> call_name(call) == "IAudioClient::GetCurrentPadding"@,
        call is GetBuffer ==> call_name(call) == "IAudioRenderClient::GetBuffer"@,
        call is ReleaseBuffer ==> call_name(call) == "IAudioRenderClient::ReleaseBuffer"@,
        call is Sleep ==> call_name(call) == "Sleep"@,
{
}

/// What fits into the buffer of a client and what is in it fill it, and nothing
/// fits into one that is full.
pub proof fn law_room_and_padding_fill_the_buffer(buffer_frames: u32, padding: u32)
    ensures
        0 <= room(buffer_frames, padding) <= buffer_frames,
        padding <= buffer_frames ==> room(buffer_frames, padding) + padding == buffer_frames,
        padding >= buffer_frames ==> room(buffer_frames, padding) == 0,
{
}

/// A fresh run has written nothing yet and is for what it was made for.
pub proof fn law_a_fresh_run_has_written_nothing(
    goal: WasapiGoal,
    call: WasapiCall,
    restart: bool,
    total_frames: usize,
)
    ensures
        ({
            let run = WasapiRun::fresh(goal, call, restart, total_frames);
            &&& run.goal == goal && run.call == call && run.restart == restart
            &&& run.frame_offset == 0 && run.frames == 0
            &&& run.total_frames == total_frames
        }),
{
}

/// A client, its run and where it stands.
pub struct WasapiState {
    pub sink: WasapiSink,
    pub run: WasapiRun,
    pub step: WasapiStep,
}

/// What came of a call: its result code and the number that it handed out.
pub struct WasapiReply {
    pub code: HResult,
    pub padding: u32,
}

/// Whether reply number `i` leads from one of the states to the next.
pub open spec fn is_wasapi_step(
    states: Seq<WasapiState>,
    replies: Seq<WasapiReply>,
    i: int,
) -> bool {
    let x = states[i];
    let y = states[i + 1];
    &&& x.step is Call
    &&& is_advanced(
        x.sink,
        x.run,
        replies[i].code,
        replies[i].padding,
        y.sink,
        y.run,
        y.step,
    )
    &&& y.step is Call ==> y.run.wf()
}

/// Whether a run goes through the states, reply by reply, from a run that is
/// fresh on a client.
pub open spec fn is_wasapi_run(
    goal: WasapiGoal,
    client: WasapiSink,
    total_frames: usize,
    states: Seq<WasapiState>,
    replies: Seq<WasapiReply>,
) -> bool {
    &&& states.len() == replies.len() + 1
    &&& states[0].sink == client
    &&& begun_run(client, goal, total_frames) == Some(states[0].run)
    &&& states[0].run.wf()
    &&& states[0].step is Call
    &&& forall|i: int| 0 <= i < replies.len() ==> #[trigger] is_wasapi_step(states, replies, i)
}

/// The copies that the client was handed by state number `n`.
pub open spec fn copies_of(
    states: Seq<WasapiState>,
    replies: Seq<WasapiReply>,
    n: int,
) -> Seq<WasapiRun>
    decreases n,
{
    if n <= 0 {
        Seq::empty()
    } else {
        let before = copies_of(states, replies, n - 1);
        let run = states[n - 1].run;
        if run.call == WasapiCall::ReleaseBuffer && replies[n - 1].code >= 0 {
            before.push(run)
        } else {
            before
        }
    }
}

/// What holds at every state of a run that writes a packet.
spec fn writes(
    client: WasapiSink,
    total_frames: usize,
    states: Seq<WasapiState>,
    replies: Seq<WasapiReply>,
    n: int,
) -> bool {
    let x = states[n];
    let copies = copies_of(states, replies, n);
    &&& x.run.goal is Write
    &&& x.run.total_frames == total_frames
    &&& x.sink.buffer_frames == client.buffer_frames
    &&& x.step is Call ==> (x.sink.running || x.run.call is Start)
    &&& x.step is Done ==> x.sink.running && x.run.frame_offset == total_frames
    &&& x.run.frame_offset <= total_frames
    &&& consecutive(copies)
    &&& copies.len() == 0 ==> x.run.frame_offset == 0
    &&& copies.len() > 0 ==> x.run.frame_offset == copies.last().frame_offset
        + copies.last().frames && copies.last().total_frames == total_frames
    &&& forall|k: int|
        0 <= k < copies.len() ==> 0 < (#[trigger] copies[k]).frames <= client.buffer_frames
    &&& x.step is Call && (x.run.call is GetBuffer || x.run.call is ReleaseBuffer) ==> 0
        < x.run.frames <= client.buffer_frames
}

proof fn lemma_writes(
    client: WasapiSink,
    total_frames: usize,
    states: Seq<WasapiState>,
    replies: Seq<WasapiReply>,
    n: int,
)
    requires
        is_wasapi_run(WasapiGoal::Write, client, total_frames, states, replies),
        0 <= n < states.len(),
    ensures
        writes(client, total_frames, states, replies, n),
        states[n].step is Call ==> states[n].run.wf(),
    decreases n,
{
    if n > 0 {
        let before = n - 1;
        assert(is_wasapi_step(states, replies, before));
        lemma_writes(client, total_frames, states, replies, before);
        let earlier = copies_of(states, replies, before);
        let copies = copies_of(states, replies, n);
        let run = states[before].run;
        if run.call is ReleaseBuffer && replies[before].code >= 0 {
            assert forall|k: int| 0 <= k < copies.len() implies #[trigger] follows(copies, k) by {
                if k < earlier.len() {
                    assert(follows(earlier, k));
                    assert(copies[k] == earlier[k]);
                    if k > 0 {
                        assert(copies[k - 1] == earlier[k - 1]);
                    }
                } else if k > 0 {
                    assert(copies[k - 1] == earlier.last());
                }
            }
            assert forall|k: int| 0 <= k < copies.len() implies 0 < (#[trigger] copies[k]).frames
                <= client.buffer_frames by {
                if k < earlier.len() {
                    assert(copies[k] == earlier[k]);
                }
            }
        }
    }
}

/// A write that succeeds has handed the client the whole packet: the copies that
/// were released, one after the other, are its samples, and none is larger than
/// the buffer of the client. The client runs.
pub proof fn law_a_write_hands_over_the_packet<T>(
    client: WasapiSink,
    total_frames: usize,
    states: Seq<WasapiState>,
    replies: Seq<WasapiReply>,
    packet: Seq<T>,
)
    requires
        is_wasapi_run(WasapiGoal::Write, client, total_frames, states, replies),
        states.last().step is Done,
        client.channels > 0,
        packet.len() == total_frames * client.channels,
    ensures
        states.last().sink.running,
        copied(
            packet,
            client.channels as int,
            copies_of(states, replies, replies.len() as int),
        ) == packet,
        forall|k: int|
            0 <= k < copies_of(states, replies, replies.len() as int).len() ==> (
            #[trigger] copies_of(states, replies, replies.len() as int)[k]).frames
                <= client.buffer_frames,
{
    let n = replies.len() as int;
    lemma_writes(client, total_frames, states, replies, n);
    let copies = copies_of(states, replies, n);
    if copies.len() > 0 {
        law_packet_is_written_whole(packet, client.channels as int, copies);
    } else {
        assert(total_frames * client.channels == 0) by (nonlinear_arith)
            requires
                total_frames == 0,
        ;
        assert(packet =~= Seq::empty());
    }
}

/// What holds at every state of a run that starts, stops or flushes a client.
spec fn switches(
    goal: WasapiGoal,
    client: WasapiSink,
    states: Seq<WasapiState>,
    replies: Seq<WasapiReply>,
    n: int,
) -> bool {
    let x = states[n];
    &&& x.run.goal == goal
    &&& x.run.restart == (goal is Flush && client.running)
    &&& x.step is Call ==> match x.run.call {
        WasapiCall::Start => goal is Start && n == 0 || goal is Flush && client.running
            && was_reset(states, replies, n),
        WasapiCall::Stop => n == 0 && !(goal is Start),
        WasapiCall::Reset => !x.sink.running && !(goal is Start),
        _ => false,
    }
    &&& x.step is Done ==> {
        &&& goal is Start ==> x.sink.running
        &&& goal is Stop ==> !x.sink.running && was_reset(states, replies, n)
        &&& goal is Flush ==> x.sink.running == client.running && was_reset(states, replies, n)
    }
}

/// Whether the client was reset before state number `n`.
pub open spec fn was_reset(states: Seq<WasapiState>, replies: Seq<WasapiReply>, n: int) -> bool {
    exists|j: int|
        0 <= j < n && (#[trigger] states[j]).run.call is Reset && replies[j].code >= 0
}

proof fn lemma_switches(
    goal: WasapiGoal,
    client: WasapiSink,
    total_frames: usize,
    states: Seq<WasapiState>,
    replies: Seq<WasapiReply>,
    n: int,
)
    requires
        is_wasapi_run(goal, client, total_frames, states, replies),
        !(goal is Write),
        0 <= n < states.len(),
    ensures
        switches(goal, client, states, replies, n),
    decreases n,
{
    if n > 0 {
        let before = n - 1;
        assert(is_wasapi_step(states, replies, before));
        lemma_switches(goal, client, total_frames, states, replies, before);
        if states[before].run.call is Reset && replies[before].code >= 0 {
            assert(was_reset(states, replies, n));
        }
        if was_reset(states, replies, before) {
            let j = choose|j: int|
                0 <= j < before && (#[trigger] states[j]).run.call is Reset && replies[j].code >= 0;
            assert(0 <= j < n && states[j].run.call is Reset);
        }
    }
}

/// A start that succeeds leaves a client that runs, and a stop one that does not
/// and was reset. A flush resets the client, and it runs afterwards exactly if it
/// ran before.
pub proof fn law_a_client_runs_as_it_was_told(
    goal: WasapiGoal,
    client: WasapiSink,
    total_frames: usize,
    states: Seq<WasapiState>,
    replies: Seq<WasapiReply>,
)
    requires
        is_wasapi_run(goal, client, total_frames, states, replies),
        states.last().step is Done,
    ensures
        goal is Start ==> states.last().sink.running,
        goal is Stop ==> !states.last().sink.running && was_reset(
            states,
            replies,
            replies.len() as int,
        ),
        goal is Flush ==> states.last().sink.running == client.running && was_reset(
            states,
            replies,
            replies.len() as int,
        ),
{
    if !(goal is Write) {
        lemma_switches(goal, client, total_frames, states, replies, replies.len() as int);
    }
}

/// A run fails exactly where a call reports a failure, which it then reports, and
/// leaves the client as it was.
pub proof fn law_a_failure_is_reported(
    sink: WasapiSink,
    run: WasapiRun,
    code: HResult,
    padding: u32,
    after: WasapiSink,
    next: WasapiRun,
    step: WasapiStep,
)
    requires
        is_advanced(sink, run, code, padding, after, next, step),
    ensures
        step is Failed <==> code < 0 && !(run.call is Sleep),
        step is Failed ==> after == sink && next == run,
        step matches WasapiStep::Failed(error) ==> error.is(
            SinkErrorKind::NotConnected,
            crate::windows_native::failure_text(call_name(run.call), code),
        ),
{
}

/// Nothing is to be done exactly where a client that runs is to start, one that
/// does not run is to stop, or one that runs is handed no frames. A packet is
/// written from its beginning, and in full.
pub proof fn law_a_run_begins_where_one_is_needed(
    sink: WasapiSink,
    goal: WasapiGoal,
    total_frames: usize,
)
    ensures
        begun_run(sink, goal, total_frames) is None <==> goal is Start && sink.running || goal
            is Stop && !sink.running || goal is Write && sink.running && total_frames == 0,
        begun_run(sink, goal, total_frames) matches Some(run) ==> {
            &&& run.goal == goal
            &&& run.frame_offset == 0 && run.frames == 0
            &&& goal is Write ==> run.total_frames == total_frames
            &&& goal is Write ==> (run.call is Start <==> !sink.running)
            &&& goal is Flush ==> run.restart == sink.running
            &&& goal is Flush ==> (run.call is Stop <==> sink.running)
            &&& run.wf()
        },
{
}

/// Whether reply number `i` leads from one of the openings to the next.
pub open spec fn is_open_step(
    openings: Seq<WasapiOpening>,
    replies: Seq<WasapiOpenReply>,
    steps: Seq<WasapiOpenStep>,
    i: int,
) -> bool {
    &&& is_opened(openings[i], replies[i], openings[i + 1], steps[i])
    &&& i + 1 < replies.len() ==> steps[i] is Call
}

/// Whether a client is opened reply by reply, from the beginning on.
pub open spec fn is_open_run(
    openings: Seq<WasapiOpening>,
    replies: Seq<WasapiOpenReply>,
    steps: Seq<WasapiOpenStep>,
) -> bool {
    &&& replies.len() > 0
    &&& openings.len() == replies.len() + 1
    &&& steps.len() == replies.len()
    &&& openings[0].call is RoInitialize
    &&& !openings[0].ro_initialized
    &&& forall|i: int|
        0 <= i < replies.len() ==> #[trigger] is_open_step(openings, replies, steps, i)
}

/// Whether a call was made before opening number `n`, succeeded, and handed out a
/// number.
pub open spec fn has_given(
    openings: Seq<WasapiOpening>,
    replies: Seq<WasapiOpenReply>,
    n: int,
    call: WasapiOpenCall,
    value: u32,
) -> bool {
    exists|j: int|
        0 <= j < n && (#[trigger] openings[j]).call == call && replies[j].code >= 0
            && replies[j].value == value
}

/// Whether a call was made before opening number `n`, and succeeded.
pub open spec fn has_succeeded(
    openings: Seq<WasapiOpening>,
    replies: Seq<WasapiOpenReply>,
    n: int,
    call: WasapiOpenCall,
) -> bool {
    exists|j: int| 0 <= j < n && (#[trigger] openings[j]).call == call && replies[j].code >= 0
}

proof fn lemma_opening(
    openings: Seq<WasapiOpening>,
    replies: Seq<WasapiOpenReply>,
    steps: Seq<WasapiOpenStep>,
    n: int,
)
    requires
        is_open_run(openings, replies, steps),
        0 <= n < replies.len(),
    ensures
        openings[n].channels == openings[0].channels,
        n == 0 <==> openings[n].call is RoInitialize,
        n > 0 ==> openings[n].ro_initialized == (replies[0].code >= 0),
        place_of(openings[n].call) > 2 ==> has_succeeded(
            openings,
            replies,
            n,
            WasapiOpenCall::AwaitActivation,
        ),
        place_of(openings[n].call) > 5 ==> has_succeeded(
            openings,
            replies,
            n,
            WasapiOpenCall::Initialize,
        ),
        place_of(openings[n].call) > 6 ==> has_given(
            openings,
            replies,
            n,
            WasapiOpenCall::GetBufferSize,
            openings[n].buffer_frames,
        ),
    decreases n,
{
    if n > 0 {
        let before = n - 1;
        assert(is_open_step(openings, replies, steps, before));
        lemma_opening(openings, replies, steps, before);
        law_an_opening_goes_on_after_success(openings[before].call, replies[before]);
        law_a_client_is_opened_by_all_calls(openings[before].call, replies[before]);
        if replies[before].code >= 0 {
            assert(has_succeeded(openings, replies, n, openings[before].call));
            assert(has_given(openings, replies, n, openings[before].call, replies[before].value));
        }
        if has_succeeded(openings, replies, before, WasapiOpenCall::AwaitActivation) {
            let j = choose|j: int|
                0 <= j < before && (#[trigger] openings[j]).call == WasapiOpenCall::AwaitActivation
                    && replies[j].code >= 0;
            assert(0 <= j < n && openings[j].call == WasapiOpenCall::AwaitActivation);
        }
        if has_succeeded(openings, replies, before, WasapiOpenCall::Initialize) {
            let j = choose|j: int|
                0 <= j < before && (#[trigger] openings[j]).call == WasapiOpenCall::Initialize
                    && replies[j].code >= 0;
            assert(0 <= j < n && openings[j].call == WasapiOpenCall::Initialize);
        }
    }
}

/// A client that is open was activated and initialized, has the buffer that it
/// reported and its channels, and handed out what it is written to by. It does not
/// run yet, and the Windows Runtime is to be left later exactly if it was entered.
pub proof fn law_an_open_client_is_what_was_reported(
    openings: Seq<WasapiOpening>,
    replies: Seq<WasapiOpenReply>,
    steps: Seq<WasapiOpenStep>,
    sink: WasapiSink,
)
    requires
        is_open_run(openings, replies, steps),
        steps.last() == WasapiOpenStep::Ready(sink),
    ensures
        ({
            let n = replies.len() as int;
            &&& sink.channels == openings[0].channels
            &&& !sink.running
            &&& sink.ro_initialized == (replies[0].code >= 0)
            &&& has_succeeded(openings, replies, n - 1, WasapiOpenCall::AwaitActivation)
            &&& has_succeeded(openings, replies, n - 1, WasapiOpenCall::Initialize)
            &&& has_given(
                openings,
                replies,
                n - 1,
                WasapiOpenCall::GetBufferSize,
                sink.buffer_frames,
            )
            &&& openings[n - 1].call is GetService
            &&& replies[n - 1].code >= 0 && !replies[n - 1].is_null
        }),
{
    let last = replies.len() - 1;
    assert(is_open_step(openings, replies, steps, last));
    lemma_opening(openings, replies, steps, last);
    law_an_opening_goes_on_after_success(openings[last].call, replies[last]);
    law_a_client_is_opened_by_all_calls(openings[last].call, replies[last]);
}

/// An opening that fails leaves the Windows Runtime again exactly if it entered
/// it.
pub proof fn law_a_failed_opening_leaves_what_it_entered(
    openings: Seq<WasapiOpening>,
    replies: Seq<WasapiOpenReply>,
    steps: Seq<WasapiOpenStep>,
)
    requires
        is_open_run(openings, replies, steps),
        steps.last() is Failed,
    ensures
        steps.last() matches WasapiOpenStep::Failed { error, uninitialize } && uninitialize == (
        replies.len() > 1 && replies[0].code >= 0) && error.kind() == SinkErrorKind::NotConnected,
        openings.last() == openings[replies.len() - 1],
{
    let last = replies.len() - 1;
    assert(is_open_step(openings, replies, steps, last));
    lemma_opening(openings, replies, steps, last);
}

} // verus!
