//! The choice of an audio backend, and the sink that follows it while it plays.
use crate::ffi_types::AudioFormat;
use crate::sink::{SinkError, SinkErrorKind, WritePosition};
use crate::text;
use vstd::prelude::*;

verus! {

/// The sample rate of all backends.
pub const SAMPLE_RATE: u32 = 44_100;

/// The channels of all backends.
pub const CHANNELS: u16 = 2;

/// The name under which the sink is known.
pub const SINK_NAME: &'static str = "uwp";

/// The ways to play audio. The position of a variant is its number on the C
/// side.
#[derive(Debug, Clone, Copy, PartialEq, Eq, Structural)]
pub enum WindowsAudioBackend {
    RingBuffer,
    Wasapi,
    XAudio2,
}

impl WindowsAudioBackend {
    /// The number that stands for the backend.
    pub open spec fn raw(self) -> u32 {
        match self {
            WindowsAudioBackend::RingBuffer => 0,
            WindowsAudioBackend::Wasapi => 1,
            WindowsAudioBackend::XAudio2 => 2,
        }
    }

    /// The name of the backend.
    pub open spec fn name_text(self) -> Seq<char> {
        match self {
            WindowsAudioBackend::RingBuffer => "RingBuffer"@,
            WindowsAudioBackend::Wasapi => "Wasapi"@,
            WindowsAudioBackend::XAudio2 => "XAudio2"@,
        }
    }

    /// The number that stands for the backend.
    pub fn as_raw(&self) -> (value: u32)
        ensures
            value == self.raw(),
    {
        match self {
            WindowsAudioBackend::RingBuffer => 0,
            WindowsAudioBackend::Wasapi => 1,
            WindowsAudioBackend::XAudio2 => 2,
        }
    }

    /// The backend that a number stands for.
    pub fn from_raw(value: u32) -> (backend: Option<WindowsAudioBackend>)
        ensures
            backend is Some <==> value <= 2,
            backend matches Some(kind) ==> kind.raw() == value,
    {
        match value {
            0 => Some(WindowsAudioBackend::RingBuffer),
            1 => Some(WindowsAudioBackend::Wasapi),
            2 => Some(WindowsAudioBackend::XAudio2),
            _ => None,
        }
    }

    /// The name of the backend.
    pub fn name(&self) -> (name: &'static str)
        ensures
            name@ == self.name_text(),
    {
        match self {
            WindowsAudioBackend::RingBuffer => "RingBuffer",
            WindowsAudioBackend::Wasapi => "Wasapi",
            WindowsAudioBackend::XAudio2 => "XAudio2",
        }
    }
}

/// How a text is shown in quotes, with what cannot be printed escaped.
pub uninterp spec fn quoted(content: Seq<char>) -> Seq<char>;

/// Calls the `Debug` formatting of `str`, which puts a text in quotes and
/// escapes it. The result is a function of the text alone, and holds no NUL,
/// which is escaped.
#[verifier::external_body]
fn quote(content: &str) -> (result: String)
    ensures
        result@ == quoted(content@),
        text::has_no_nul(result@),
{
    format!("{content:?}")
}

/// The backend that is to be used, and why the last choice failed.
#[derive(Debug)]
pub struct BackendSelection {
    pub selected: u32,
    /// Goes up by one with every change of the choice.
    pub version: u64,
    /// Whether the choice was tried out.
    pub validated: bool,
    pub output_device: String,
    /// Why the last choice failed; empty if it did not.
    pub last_error: String,
}

/// A choice that is to be tried out.
#[derive(Debug)]
pub struct SelectionRequest {
    pub kind: WindowsAudioBackend,
    pub device: String,
    pub changed: bool,
}

/// What becomes of a choice.
#[derive(Debug)]
pub enum SelectionStart {
    /// The choice is refused.
    Rejected,
    /// The choice is in force already.
    Unchanged,
    /// The choice is to be tried out.
    Probe(SelectionRequest),
}

/// What trying out a choice came to.
#[derive(Debug)]
pub enum ProbeOutcome {
    Works,
    /// The choice does not work; the text shows the error.
    Fails(String),
}

/// Whether the error that trying out a choice came to is shown without a NUL.
pub open spec fn shows_no_nul(probe: ProbeOutcome) -> bool {
    probe matches ProbeOutcome::Fails(shown) ==> text::has_no_nul(shown@)
}

/// The message for a choice that does not work, without a NUL.
proof fn lemma_probe_message(kind: WindowsAudioBackend, device: Seq<char>, shown: Seq<char>)
    requires
        text::has_no_nul(device),
    ensures
        ({
            let message = "Audio backend probe failed for "@ + kind.name_text() + ", device="@
                + device + ": "@ + shown;
            &&& message.len() > 0
            &&& text::has_no_nul(shown) ==> text::has_no_nul(message)
        }),
{
    reveal_strlit("Audio backend probe failed for ");
    reveal_strlit("RingBuffer");
    reveal_strlit("Wasapi");
    reveal_strlit("XAudio2");
    reveal_strlit(", device=");
    reveal_strlit(": ");
    let a = "Audio backend probe failed for "@;
    let b = a + kind.name_text();
    let c = b + ", device="@;
    let d = c + device;
    let e = d + ": "@;
    text::lemma_no_nul_add(a, kind.name_text());
    text::lemma_no_nul_add(b, ", device="@);
    text::lemma_no_nul_add(c, device);
    text::lemma_no_nul_add(d, ": "@);
    if text::has_no_nul(shown) {
        text::lemma_no_nul_add(e, shown);
    }
}

/// Whether a choice begins as it must, and leaves the selection with the reason
/// that it must leave.
pub open spec fn begins_choice(
    before: BackendSelection,
    kind: u32,
    device: String,
    ring_ready: bool,
    start: SelectionStart,
    after: BackendSelection,
) -> bool {
    match start {
        SelectionStart::Rejected => {
            ||| kind > 2 && after.last_error@ == "Unknown audio backend value "@
                + text::decimal(kind as nat)
            ||| kind == 0 && !ring_ready && after.last_error@
                == "Unable to allocate the managed ring buffer"@
        },
        SelectionStart::Unchanged => {
            &&& kind <= 2 && (kind == 0 ==> ring_ready)
            &&& before.validated && before.selected == kind
            &&& before.output_device@ == device@
            &&& after.last_error@.len() == 0
        },
        SelectionStart::Probe(request) => {
            &&& kind <= 2 && (kind == 0 ==> ring_ready)
            &&& request.kind.raw() == kind
            &&& request.device == device
            &&& request.changed == !before.is_current(request.kind, device@)
            &&& request.changed || !before.validated
            &&& after.last_error == before.last_error
        },
    }
}

/// Whether the selection is what the end of a choice makes of it.
pub open spec fn ends_choice(
    before: BackendSelection,
    request: SelectionRequest,
    probe: ProbeOutcome,
    stored: bool,
    after: BackendSelection,
) -> bool {
    match probe {
        ProbeOutcome::Fails(shown) => {
            &&& after == (BackendSelection { last_error: after.last_error, ..before })
            &&& after.last_error@ == "Audio backend probe failed for "@ + request.kind.name_text()
                + ", device="@ + quoted(request.device@) + ": "@ + shown@
        },
        ProbeOutcome::Works => if stored {
            &&& after.output_device == request.device
            &&& after.selected == if request.changed {
                request.kind.raw()
            } else {
                before.selected
            }
            &&& after.version == if request.changed {
                before.version + 1
            } else {
                before.version as int
            }
            &&& after.validated
            &&& after.last_error@.len() == 0
        } else {
            &&& after == (BackendSelection { last_error: after.last_error, ..before })
            &&& after.last_error@ == "Unable to update the selected audio output device"@
        },
    }
}

impl BackendSelection {
    /// Whether a choice is the one in force.
    pub open spec fn is_current(self, kind: WindowsAudioBackend, device: Seq<char>) -> bool {
        self.selected == kind.raw() && self.output_device@ == device
    }

    /// Whether there is a reason why the last choice failed, and it can be handed
    /// to C.
    pub open spec fn is_explained(self) -> bool {
        self.last_error@.len() > 0 && text::has_no_nul(self.last_error@)
    }

    /// What is in force before a choice was made.
    pub fn new() -> (selection: BackendSelection)
        ensures
            selection.selected == WindowsAudioBackend::XAudio2.raw(),
            selection.version == 1,
            !selection.validated,
            selection.output_device@.len() == 0,
            selection.last_error@.len() == 0,
    {
        let output_device = String::new();
        let last_error = String::new();
        BackendSelection { selected: 2, version: 1, validated: false, output_device, last_error }
    }

    /// The backend in force.
    pub fn selected_backend(&self) -> (backend: WindowsAudioBackend)
        ensures
            self.selected <= 2 ==> backend.raw() == self.selected,
            self.selected > 2 ==> backend == WindowsAudioBackend::XAudio2,
    {
        match WindowsAudioBackend::from_raw(self.selected) {
            Some(backend) => backend,
            None => WindowsAudioBackend::XAudio2,
        }
    }

    /// The number of the backend in force.
    pub fn librespot_audio_get_backend(&self) -> (value: u32)
        ensures
            value == self.selected,
    {
        self.selected
    }

    /// Why the last choice failed; nothing if it did not, or if the text cannot
    /// be handed to C.
    pub fn librespot_audio_get_last_error(&self) -> (message: Option<String>)
        ensures
            message is Some <==> self.is_explained(),
            message matches Some(content) ==> content@ == self.last_error@,
    {
        assert(self.last_error@.contains('\0') <==> !text::has_no_nul(self.last_error@));
        if text::is_empty(self.last_error.as_str()) || text::has_char(
            self.last_error.as_str(),
            '\0',
        ) {
            None
        } else {
            Some(self.last_error.clone())
        }
    }

    /// Begins to change the choice. `ring_ready` says whether the ring has
    /// memory; it matters only where the ring is chosen.
    pub fn begin_set_backend(&mut self, kind: u32, device: String, ring_ready: bool) -> (start:
        SelectionStart)
        ensures
            final(self).selected == old(self).selected,
            final(self).version == old(self).version,
            final(self).validated == old(self).validated,
            final(self).output_device == old(self).output_device,
            start is Rejected ==> final(self).is_explained(),
            begins_choice(*old(self), kind, device, ring_ready, start, *final(self)),
    {
        proof {
            reveal_strlit("Unknown audio backend value ");
            reveal_strlit("Unable to allocate the managed ring buffer");
            text::lemma_no_nul_decimal(kind as nat);
            text::lemma_no_nul_add(
                "Unknown audio backend value "@,
                text::decimal(kind as nat),
            );
        }
        let backend = match WindowsAudioBackend::from_raw(kind) {
            Some(backend) => backend,
            None => {
                let number = text::to_decimal(kind as u64);
                self.last_error = text::concat("Unknown audio backend value ", number.as_str());
                return SelectionStart::Rejected;
            },
        };
        if kind == 0 && !ring_ready {
            self.last_error = "Unable to allocate the managed ring buffer".to_owned();
            return SelectionStart::Rejected;
        }
        let changed = !text::same_text(self.output_device.as_str(), device.as_str())
            || self.selected != kind;
        if !changed && self.validated {
            self.last_error = String::new();
            return SelectionStart::Unchanged;
        }
        SelectionStart::Probe(SelectionRequest { kind: backend, device, changed })
    }

    /// Ends the change of the choice once it was tried out. `stored` says
    /// whether the device could be stored. The result says whether the choice
    /// is in force.
    pub fn finish_set_backend(
        &mut self,
        request: SelectionRequest,
        probe: ProbeOutcome,
        stored: bool,
    ) -> (selected: bool)
        requires
            old(self).version < u64::MAX,
        ensures
            selected <==> probe is Works && stored,
            !selected && shows_no_nul(probe) ==> final(self).is_explained(),
            ends_choice(*old(self), request, probe, stored, *final(self)),
    {
        match probe {
            ProbeOutcome::Fails(shown) => {
                let device = quote(request.device.as_str());
                proof {
                    lemma_probe_message(request.kind, device@, shown@);
                }
                let mut message = text::concat3(
                    "Audio backend probe failed for ",
                    request.kind.name(),
                    ", device=",
                );
                message.append(device.as_str());
                message.append(": ");
                message.append(shown.as_str());
                self.last_error = message;
                false
            },
            ProbeOutcome::Works => {
                if !stored {
                    proof {
                        reveal_strlit("Unable to update the selected audio output device");
                    }
                    self.last_error =
                    "Unable to update the selected audio output device".to_owned();
                    return false;
                }
                self.output_device = request.device;
                if request.changed {
                    self.selected = request.kind.as_raw();
                    self.version = self.version + 1;
                }
                self.validated = true;
                self.last_error = String::new();
                true
            },
        }
    }
}

/// A choice that was tried out and works is in force, and choosing it again
/// leaves it so: `begin_set_backend` then finds it current and validated.
pub proof fn law_a_working_choice_is_in_force(
    before: BackendSelection,
    after: BackendSelection,
    request: SelectionRequest,
)
    requires
        request.changed == !before.is_current(request.kind, request.device@),
        after.output_device == request.device,
        after.selected == if request.changed {
            request.kind.raw()
        } else {
            before.selected
        },
    ensures
        after.is_current(request.kind, request.device@),
{
}

/// A choice ends in one of two ways. One that works and could be stored is in
/// force, has no error, and has a new version exactly if it differs from the one
/// before it, so that a playing sink changes over to it. Any other leaves what is
/// in force as it was, with a reason.
pub proof fn law_a_choice_is_in_force_or_leaves_the_one_before(
    before: BackendSelection,
    request: SelectionRequest,
    probe: ProbeOutcome,
    stored: bool,
    after: BackendSelection,
)
    requires
        ends_choice(before, request, probe, stored, after),
        request.changed == !before.is_current(request.kind, request.device@),
    ensures
        probe is Works && stored ==> {
            &&& after.selected == request.kind.raw()
            &&& after.output_device@ == request.device@
            &&& after.validated
            &&& after.last_error@.len() == 0
            &&& after.version > before.version <==> before.selected != request.kind.raw()
                || before.output_device@ != request.device@
            &&& after.version <= before.version ==> after.version == before.version
        },
        !(probe is Works && stored) ==> {
            &&& after.selected == before.selected
            &&& after.output_device == before.output_device
            &&& after.version == before.version
            &&& after.validated == before.validated
            &&& after.last_error@.len() > 0
        },
{
    reveal_strlit("Unable to update the selected audio output device");
    reveal_strlit("Audio backend probe failed for ");
}

/// A choice is refused exactly if it is not one, or is the ring and that has no
/// memory. One that is in force and was tried out needs nothing more. Any other
/// is tried out, with the backend and the device that were chosen, and counts as
/// a change exactly if one of these differs from what is in force.
pub proof fn law_a_choice_is_tried_out_unless_in_force(
    before: BackendSelection,
    kind: u32,
    device: String,
    ring_ready: bool,
    start: SelectionStart,
    after: BackendSelection,
)
    requires
        begins_choice(before, kind, device, ring_ready, start, after),
    ensures
        start is Rejected <==> kind > 2 || kind == 0 && !ring_ready,
        start is Unchanged ==> before.validated && before.selected == kind
            && before.output_device@ == device@ && after.last_error@.len() == 0,
        start matches SelectionStart::Probe(request) ==> {
            &&& request.kind.raw() == kind
            &&& request.device == device
            &&& request.changed <==> before.selected != kind || before.output_device@ != device@
            &&& !before.validated || before.selected != kind || before.output_device@ != device@
        },
        start is Rejected ==> after.last_error@.len() > 0,
{
    reveal_strlit("Unknown audio backend value ");
    reveal_strlit("Unable to allocate the managed ring buffer");
}

/// The backends have the numbers nought, one and two on the C side, in the order
/// ring, WASAPI and XAudio2, and each goes by its own name.
pub proof fn law_backends_have_numbers_and_names(one: WindowsAudioBackend, other: WindowsAudioBackend)
    ensures
        one.raw() == 0 <==> one is RingBuffer,
        one.raw() == 1 <==> one is Wasapi,
        one.raw() == 2 <==> one is XAudio2,
        one.raw() <= 2,
        one.name_text() == other.name_text() ==> one == other,
        one is RingBuffer ==> one.name_text() == "RingBuffer"@,
        one is Wasapi ==> one.name_text() == "Wasapi"@,
        one is XAudio2 ==> one.name_text() == "XAudio2"@,
{
    reveal_strlit("RingBuffer");
    reveal_strlit("Wasapi");
    reveal_strlit("XAudio2");
    assert("RingBuffer"@.len() == 10 && "Wasapi"@.len() == 6 && "XAudio2"@.len() == 7);
}

/// The sinks between which the playing sink switches.
#[derive(Debug, Clone, Copy, PartialEq, Eq, Structural)]
pub enum ActiveSink {
    /// No sink was opened yet.
    Idle,
    Ring,
    Wasapi,
    XAudio2,
    /// The renderer for devices that XAudio2 rejects.
    XAudio2Endpoint,
}

/// Why a call on a sink failed, and how that is shown.
#[derive(Debug)]
pub struct SinkFailure {
    pub error: SinkError,
    pub shown: String,
}

/// A sink that is being opened.
#[derive(Debug)]
pub struct SinkCreation {
    pub opening: ActiveSink,
    pub device: String,
    /// How the failure of XAudio2 to open the device is shown.
    pub rejected: String,
}

/// Where the opening of a sink stands.
#[derive(Debug)]
pub enum CreationStep {
    /// The sink that the creation names is to be opened.
    Open,
    /// The sink that the creation names is open.
    Created,
    Failed(SinkError),
}

/// The sink that is opened first for a backend.
pub open spec fn first_sink(backend: WindowsAudioBackend) -> ActiveSink {
    match backend {
        WindowsAudioBackend::RingBuffer => ActiveSink::Ring,
        WindowsAudioBackend::Wasapi => ActiveSink::Wasapi,
        WindowsAudioBackend::XAudio2 => ActiveSink::XAudio2,
    }
}

/// The message where a device is open to neither XAudio2 nor the renderer that
/// stands in for it.
pub open spec fn both_failed(rejected: Seq<char>, shown: Seq<char>) -> Seq<char> {
    "XAudio2 endpoint failed ("@ + rejected + "); compatibility endpoint failed ("@ + shown + ")"@
}

/// Why neither could be opened can be handed to C, as both reasons can.
pub proof fn law_double_failures_can_be_told(rejected: Seq<char>, shown: Seq<char>)
    requires
        text::has_no_nul(rejected),
        text::has_no_nul(shown),
    ensures
        text::has_no_nul(both_failed(rejected, shown)),
{
    reveal_strlit("XAudio2 endpoint failed (");
    reveal_strlit("); compatibility endpoint failed (");
    reveal_strlit(")");
    let a = "XAudio2 endpoint failed ("@;
    let b = a + rejected;
    let c = b + "); compatibility endpoint failed ("@;
    let d = c + shown;
    text::lemma_no_nul_add(a, rejected);
    text::lemma_no_nul_add(b, "); compatibility endpoint failed ("@);
    text::lemma_no_nul_add(c, shown);
    text::lemma_no_nul_add(d, ")"@);
}

/// Whether a text is the reason why a WASAPI client cannot be opened.
pub open spec fn is_wasapi_failure(message: Seq<char>) -> bool {
    exists|call: crate::wasapi::WasapiOpenCall, reply: crate::wasapi::WasapiOpenReply|
        #[trigger] crate::wasapi::open_failure(call, reply) == Some(message)
}

/// Whether a text is the reason why XAudio2 cannot be opened, or why its effects
/// cannot be applied for the first time.
pub open spec fn is_xaudio2_failure(message: Seq<char>) -> bool {
    ||| exists|call: crate::xaudio2::XAudio2OpenCall, code: crate::windows_native::HResult, is_null: bool|
        #[trigger] crate::xaudio2::open_failure(call, code, is_null) == Some(message)
    ||| exists|call: crate::effects::EffectCall, code: crate::windows_native::HResult| #[trigger]
        crate::windows_native::failure_text(crate::effects::effect_call_name(call), code)
            == message
}

/// Whether a text is the reason why a device is open to neither XAudio2 nor the
/// renderer that stands in for it. Errors are shown behind `label`.
pub open spec fn is_double_failure(label: Seq<char>, message: Seq<char>) -> bool {
    exists|first: Seq<char>, second: Seq<char>|
        is_xaudio2_failure(first) && is_wasapi_failure(second) && message == #[trigger] both_failed(
            label + first,
            label + second,
        )
}

/// Whether a text is a reason why trying out a backend fails.
pub open spec fn is_probe_failure(
    backend: WindowsAudioBackend,
    label: Seq<char>,
    message: Seq<char>,
) -> bool {
    match backend {
        WindowsAudioBackend::RingBuffer => message == "unable to allocate the managed ring buffer"@,
        WindowsAudioBackend::Wasapi => is_wasapi_failure(message),
        WindowsAudioBackend::XAudio2 => is_xaudio2_failure(message) || is_double_failure(
            label,
            message,
        ),
    }
}

proof fn lemma_xaudio2_failure(message: Seq<char>)
    requires
        is_xaudio2_failure(message),
    ensures
        text::has_no_nul(message),
{
    if exists|call: crate::xaudio2::XAudio2OpenCall, code: crate::windows_native::HResult, is_null: bool|
        #[trigger] crate::xaudio2::open_failure(call, code, is_null) == Some(message) {
        let (call, code, is_null) = choose|
            call: crate::xaudio2::XAudio2OpenCall,
            code: crate::windows_native::HResult,
            is_null: bool,
        | #[trigger] crate::xaudio2::open_failure(call, code, is_null) == Some(message);
        crate::xaudio2::law_failed_openings_can_be_told(call, code, is_null);
    } else {
        let (call, code) = choose|call: crate::effects::EffectCall, code: crate::windows_native::HResult| #[trigger]
            crate::windows_native::failure_text(crate::effects::effect_call_name(call), code)
                == message;
        crate::effects::law_failed_effects_can_be_told(call, code);
    }
}

proof fn lemma_wasapi_failure(message: Seq<char>)
    requires
        is_wasapi_failure(message),
    ensures
        text::has_no_nul(message),
{
    let (call, reply) = choose|
        call: crate::wasapi::WasapiOpenCall,
        reply: crate::wasapi::WasapiOpenReply,
    | #[trigger] crate::wasapi::open_failure(call, reply) == Some(message);
    crate::wasapi::law_failed_openings_can_be_told(call, reply);
}

/// A choice that is refused can always be explained: whatever the reason why
/// trying it out fails, the error is shown without a NUL, as the label is that
/// errors are shown behind. `finish_set_backend` then leaves a reason that can be
/// read.
pub proof fn law_a_failed_choice_can_be_explained(
    backend: WindowsAudioBackend,
    label: Seq<char>,
    message: Seq<char>,
    probe: ProbeOutcome,
)
    requires
        text::has_no_nul(label),
        is_probe_failure(backend, label, message),
        probe matches ProbeOutcome::Fails(shown) && shown@ == label + message,
    ensures
        shows_no_nul(probe),
{
    match backend {
        WindowsAudioBackend::RingBuffer => {
            reveal_strlit("unable to allocate the managed ring buffer");
        },
        WindowsAudioBackend::Wasapi => {
            lemma_wasapi_failure(message);
        },
        WindowsAudioBackend::XAudio2 => {
            if is_xaudio2_failure(message) {
                lemma_xaudio2_failure(message);
            } else {
                let (first, second) = choose|first: Seq<char>, second: Seq<char>|
                    is_xaudio2_failure(first) && is_wasapi_failure(second) && message
                        == #[trigger] both_failed(label + first, label + second);
                lemma_xaudio2_failure(first);
                lemma_wasapi_failure(second);
                text::lemma_no_nul_add(label, first);
                text::lemma_no_nul_add(label, second);
                law_double_failures_can_be_told(label + first, label + second);
            }
        },
    }
    text::lemma_no_nul_add(label, message);
}

impl SinkCreation {
    /// Begins to open a sink for a backend. The ring needs no opening.
    pub fn create_active(backend: WindowsAudioBackend, device: String) -> (outcome: (
        SinkCreation,
        CreationStep,
    ))
        ensures
            outcome.0.opening == first_sink(backend),
            outcome.0.device == device,
            outcome.0.rejected@.len() == 0,
            outcome.1 is Created <==> backend == WindowsAudioBackend::RingBuffer,
            outcome.1 is Open <==> backend != WindowsAudioBackend::RingBuffer,
    {
        let rejected = String::new();
        match backend {
            WindowsAudioBackend::RingBuffer => (
                SinkCreation { opening: ActiveSink::Ring, device, rejected },
                CreationStep::Created,
            ),
            WindowsAudioBackend::Wasapi => (
                SinkCreation { opening: ActiveSink::Wasapi, device, rejected },
                CreationStep::Open,
            ),
            WindowsAudioBackend::XAudio2 => (
                SinkCreation { opening: ActiveSink::XAudio2, device, rejected },
                CreationStep::Open,
            ),
        }
    }

    /// Goes on after the sink was opened or could not be. A named device that
    /// XAudio2 rejects is tried once more with the renderer that stands in.
    pub fn opened(&mut self, result: Result<(), SinkFailure>) -> (step: CreationStep)
        ensures
            final(self).device == old(self).device,
            match result {
                Ok(_) => step is Created && *final(self) == *old(self),
                Err(failure) => if old(self).opening == ActiveSink::XAudio2
                    && old(self).device@.len() > 0 {
                    &&& step is Open
                    &&& final(self).opening == ActiveSink::XAudio2Endpoint
                    &&& final(self).rejected == failure.shown
                } else {
                    &&& *final(self) == *old(self)
                    &&& step matches CreationStep::Failed(error) && if old(self).opening
                        == ActiveSink::XAudio2Endpoint {
                        error.is(
                            SinkErrorKind::NotConnected,
                            both_failed(old(self).rejected@, failure.shown@),
                        )
                    } else {
                        error == failure.error
                    }
                },
            },
    {
        match result {
            Ok(_) => CreationStep::Created,
            Err(failure) => {
                if self.opening == ActiveSink::XAudio2 && !text::is_empty(self.device.as_str()) {
                    self.opening = ActiveSink::XAudio2Endpoint;
                    self.rejected = failure.shown;
                    return CreationStep::Open;
                }
                if self.opening == ActiveSink::XAudio2Endpoint {
                    let mut message = text::concat3(
                        "XAudio2 endpoint failed (",
                        self.rejected.as_str(),
                        "); compatibility endpoint failed (",
                    );
                    message.append(failure.shown.as_str());
                    message.append(")");
                    return CreationStep::Failed(SinkError::NotConnected(message));
                }
                CreationStep::Failed(failure.error)
            },
        }
    }

    /// Whether the ring can be used, given whether it has memory.
    pub fn probe_ring(allocated: bool) -> (result: Result<(), SinkError>)
        ensures
            result is Ok <==> allocated,
            result matches Err(error) ==> error.is(
                SinkErrorKind::NotConnected,
                "unable to allocate the managed ring buffer"@,
            ),
    {
        if allocated {
            Ok(())
        } else {
            Err(SinkError::not_connected("unable to allocate the managed ring buffer"))
        }
    }
}

/// What a run of calls on the sink is for.
#[derive(Debug, Clone, Copy, PartialEq, Eq, Structural)]
pub enum UwpGoal {
    BeginGeneration,
    Start,
    Stop,
    Write,
}

/// The call that is due in a run.
#[derive(Debug, Clone, Copy, PartialEq, Eq, Structural)]
pub enum UwpCall {
    /// Open the sink that the creation names.
    OpenReplacement,
    /// Start the sink that was opened.
    StartReplacement,
    /// Stop the sink that was replaced, whether or not that works.
    StopPrevious,
    StartActive,
    StopActive,
    /// Write the packet to the ring.
    WriteRing,
    /// Convert the packet and write it to the active sink.
    WriteNative,
    /// Flush the active sink, whether or not that works.
    FlushActive,
    /// Begin a generation of the ring.
    RingGeneration,
}

/// The sink that plays. It changes over to another backend, once one is chosen,
/// at the next packet.
#[derive(Debug, Clone, Copy, PartialEq, Eq, Structural)]
pub struct UwpSink {
    pub format: AudioFormat,
    pub active: ActiveSink,
    pub applied_version: u64,
    pub running: bool,
}

/// How far a run is.
#[derive(Debug, Clone, Copy, PartialEq, Eq, Structural)]
pub struct UwpPlan {
    pub goal: UwpGoal,
    pub call: UwpCall,
    pub was_running: bool,
    /// The version of the choice that the run follows.
    pub version: u64,
    /// The sink that takes over.
    pub replacement: ActiveSink,
    /// The sink that was replaced.
    pub previous: ActiveSink,
    /// Whether the packet is one that is passed through as it is.
    pub passthrough: bool,
    pub sample_count: usize,
}

/// A run of calls that is under way.
#[derive(Debug)]
pub struct UwpRun {
    pub plan: UwpPlan,
    pub creation: SinkCreation,
}

/// What all sinks count together.
#[derive(Debug, Clone, Copy, PartialEq, Eq, Structural)]
pub struct AudioCounters {
    pub native_generation: u64,
    pub written: WritePosition,
}

/// What came of a call.
#[derive(Debug)]
pub struct UwpReply {
    pub result: Result<(), SinkFailure>,
    /// The generation that the ring began.
    pub generation: u64,
}

/// Where a run stands after a call.
#[derive(Debug)]
pub enum UwpStep {
    /// The call that the plan names is due.
    Call,
    Done,
    /// The generation that began.
    Generation(u64),
    Failed(SinkError),
}

/// What a step of a run comes to.
#[verifier::ext_equal]
pub enum UwpOutcome {
    Call,
    Done,
    Generation(u64),
    Failed(SinkErrorKind, Seq<char>),
}

/// The outcome that a step reports.
pub open spec fn uwp_outcome(step: UwpStep) -> UwpOutcome {
    match step {
        UwpStep::Call => UwpOutcome::Call,
        UwpStep::Done => UwpOutcome::Done,
        UwpStep::Generation(generation) => UwpOutcome::Generation(generation),
        UwpStep::Failed(error) => UwpOutcome::Failed(error.kind(), error.text()),
    }
}

/// A sink, the plan of its run and the counters, with what a step came to.
#[verifier::ext_equal]
pub struct UwpState {
    pub sink: UwpSink,
    pub plan: UwpPlan,
    pub counters: AudioCounters,
    pub outcome: UwpOutcome,
}

/// The next call is due.
pub open spec fn uwp_calls(x: UwpState, call: UwpCall) -> UwpState {
    UwpState { plan: UwpPlan { call, ..x.plan }, outcome: UwpOutcome::Call, ..x }
}

/// The run fails.
pub open spec fn uwp_fails(x: UwpState, kind: SinkErrorKind, message: Seq<char>) -> UwpState {
    UwpState { outcome: UwpOutcome::Failed(kind, message), ..x }
}

/// Counts a generation of a native sink.
pub open spec fn native_generation(x: UwpState) -> UwpState {
    let generation = (x.counters.native_generation + 1) as u64;
    UwpState {
        counters: AudioCounters { native_generation: generation, ..x.counters },
        outcome: UwpOutcome::Generation(generation),
        ..x
    }
}

/// Begins a generation of whatever sink is active.
pub open spec fn begins_generation(x: UwpState) -> UwpState {
    match x.sink.active {
        ActiveSink::Idle => native_generation(x),
        ActiveSink::Ring => uwp_calls(x, UwpCall::RingGeneration),
        _ => uwp_calls(x, UwpCall::FlushActive),
    }
}

/// The chosen backend could not be put in force: a generation begins all the
/// same, anything else fails.
pub open spec fn not_selected(x: UwpState, kind: SinkErrorKind, message: Seq<char>) -> UwpState {
    if x.plan.goal == UwpGoal::BeginGeneration {
        begins_generation(x)
    } else {
        uwp_fails(x, kind, message)
    }
}

/// Does what the run is for once the chosen backend is in force.
pub open spec fn selected(x: UwpState) -> UwpState {
    match x.plan.goal {
        UwpGoal::BeginGeneration => begins_generation(x),
        UwpGoal::Start => if x.plan.was_running || x.sink.active == ActiveSink::Idle {
            UwpState {
                sink: UwpSink { running: true, ..x.sink },
                outcome: UwpOutcome::Done,
                ..x
            }
        } else {
            uwp_calls(x, UwpCall::StartActive)
        },
        UwpGoal::Write => if x.sink.active == ActiveSink::Ring {
            uwp_calls(x, UwpCall::WriteRing)
        } else if x.plan.passthrough {
            uwp_fails(
                x,
                SinkErrorKind::InvalidParams,
                "native Windows PCM backends do not accept passthrough packets"@,
            )
        } else if x.sink.active == ActiveSink::Idle {
            uwp_fails(
                x,
                SinkErrorKind::NotConnected,
                "native Windows audio backend was not initialized"@,
            )
        } else {
            uwp_calls(x, UwpCall::WriteNative)
        },
        UwpGoal::Stop => UwpState { outcome: UwpOutcome::Done, ..x },
    }
}

/// The replacement takes over, and the sink before it is stopped.
pub open spec fn replaced(x: UwpState) -> UwpState {
    let y = UwpState {
        sink: UwpSink {
            active: x.plan.replacement,
            applied_version: x.plan.version,
            ..x.sink
        },
        plan: UwpPlan { previous: x.sink.active, ..x.plan },
        ..x
    };
    if x.sink.active == ActiveSink::Idle {
        selected(y)
    } else {
        uwp_calls(y, UwpCall::StopPrevious)
    }
}

/// A sink for the chosen backend is open: it starts before it takes over if the
/// sink before it plays.
pub open spec fn created(x: UwpState, replacement: ActiveSink) -> UwpState {
    let y = UwpState { plan: UwpPlan { replacement, ..x.plan }, ..x };
    if x.sink.running {
        uwp_calls(y, UwpCall::StartReplacement)
    } else {
        replaced(y)
    }
}

/// Begins a run: the chosen backend, if it is not in force, is opened first.
pub open spec fn begun(x: UwpState, backend: WindowsAudioBackend) -> UwpState {
    if x.sink.applied_version == x.plan.version && x.sink.active != ActiveSink::Idle {
        selected(x)
    } else if backend == WindowsAudioBackend::RingBuffer {
        created(x, ActiveSink::Ring)
    } else {
        uwp_calls(x, UwpCall::OpenReplacement)
    }
}

/// Begins to stop the sink.
pub open spec fn stops(x: UwpState) -> UwpState {
    let y = UwpState { sink: UwpSink { running: false, ..x.sink }, ..x };
    if x.sink.active == ActiveSink::Idle {
        UwpState { outcome: UwpOutcome::Done, ..y }
    } else {
        uwp_calls(y, UwpCall::StopActive)
    }
}

/// What the result of a call other than one that opens a sink leads to.
pub open spec fn called(x: UwpState, reply: UwpReply) -> UwpState {
    let failed = match reply.result {
        Ok(_) => x,
        Err(failure) => uwp_fails(x, failure.error.kind(), failure.error.text()),
    };
    let done = UwpState { outcome: UwpOutcome::Done, ..x };
    match x.plan.call {
        UwpCall::OpenReplacement => x,
        UwpCall::StartReplacement => match reply.result {
            Ok(_) => replaced(x),
            Err(failure) => not_selected(x, failure.error.kind(), failure.error.text()),
        },
        UwpCall::StopPrevious => selected(x),
        UwpCall::StartActive => if reply.result is Ok {
            UwpState { sink: UwpSink { running: true, ..x.sink }, ..done }
        } else {
            failed
        },
        UwpCall::StopActive => if reply.result is Ok {
            done
        } else {
            failed
        },
        UwpCall::WriteRing => if reply.result is Ok {
            done
        } else {
            failed
        },
        UwpCall::WriteNative => if reply.result is Ok {
            UwpState {
                counters: AudioCounters {
                    written: WritePosition {
                        total: crate::sink::counted(
                            x.counters.written.total,
                            x.plan.sample_count * x.sink.format.sample_bytes(),
                        ) as usize,
                    },
                    ..x.counters
                },
                ..done
            }
        } else {
            failed
        },
        UwpCall::FlushActive => native_generation(x),
        UwpCall::RingGeneration => UwpState {
            outcome: UwpOutcome::Generation(reply.generation),
            ..x
        },
    }
}

/// What an attempt to open the sink that the creation names leads to. A named
/// device that XAudio2 rejects is tried once more, with the renderer that stands
/// in.
pub open spec fn opened(x: UwpState, creation: SinkCreation, reply: UwpReply) -> UwpState {
    match reply.result {
        Ok(_) => created(x, creation.opening),
        Err(failure) => if creation.opening == ActiveSink::XAudio2 && creation.device@.len() > 0 {
            x
        } else if creation.opening == ActiveSink::XAudio2Endpoint {
            not_selected(
                x,
                SinkErrorKind::NotConnected,
                both_failed(creation.rejected@, failure.shown@),
            )
        } else {
            not_selected(x, failure.error.kind(), failure.error.text())
        },
    }
}

/// What the result of the call that was due leads to.
pub open spec fn uwp_step(x: UwpState, creation: SinkCreation, reply: UwpReply) -> UwpState {
    if x.plan.call == UwpCall::OpenReplacement {
        opened(x, creation, reply)
    } else {
        called(x, reply)
    }
}

/// The sink, the plan and the counters, with what a step came to.
pub open spec fn uwp_state(
    sink: UwpSink,
    plan: UwpPlan,
    counters: AudioCounters,
    step: UwpStep,
) -> UwpState {
    UwpState { sink, plan, counters, outcome: uwp_outcome(step) }
}

/// Whether the samples of the packet can be counted.
pub open spec fn packet_fits(plan: UwpPlan) -> bool {
    plan.sample_count * 8 <= usize::MAX
}

impl UwpSink {
    /// The sink before it plays anything.
    pub fn open(format: AudioFormat) -> (sink: UwpSink)
        ensures
            sink == (UwpSink {
                format,
                active: ActiveSink::Idle,
                applied_version: 0,
                running: false,
            }),
    {
        UwpSink { format, active: ActiveSink::Idle, applied_version: 0, running: false }
    }

    /// Begins a run for the given goal under the choice of a backend that was
    /// read. The packet, where one is written, has `sample_count` samples.
    fn begin(
        &mut self,
        counters: &mut AudioCounters,
        goal: UwpGoal,
        version: u64,
        backend: WindowsAudioBackend,
        device: String,
        passthrough: bool,
        sample_count: usize,
    ) -> (outcome: (UwpRun, UwpStep))
        requires
            old(counters).native_generation < u64::MAX,
            sample_count * 8 <= usize::MAX,
        ensures
            packet_fits(outcome.0.plan),
            outcome.0.creation.device == device,
            outcome.0.creation.rejected@.len() == 0,
            outcome.1 is Call && outcome.0.plan.call == UwpCall::OpenReplacement
                ==> outcome.0.creation.opening == first_sink(backend),
            uwp_state(*final(self), outcome.0.plan, *final(counters), outcome.1) == begun(
                UwpState {
                    sink: *old(self),
                    plan: fresh_plan(
                        goal,
                        old(self).running,
                        version,
                        old(self).active,
                        passthrough,
                        sample_count,
                    ),
                    counters: *old(counters),
                    outcome: UwpOutcome::Done,
                },
                backend,
            ),
    {
        let mut plan = UwpPlan {
            goal,
            call: UwpCall::StopActive,
            was_running: self.running,
            version,
            replacement: self.active,
            previous: ActiveSink::Idle,
            passthrough,
            sample_count,
        };
        let (creation, creation_step) = SinkCreation::create_active(backend, device);
        let step = if self.applied_version == version && self.active != ActiveSink::Idle {
            self.selected(&mut plan, counters)
        } else if backend == WindowsAudioBackend::RingBuffer {
            self.created(&mut plan, counters, ActiveSink::Ring)
        } else {
            plan.call = UwpCall::OpenReplacement;
            UwpStep::Call
        };
        (UwpRun { plan, creation }, step)
    }

    /// Begins a generation of audio.
    pub fn begin_generation(
        &mut self,
        counters: &mut AudioCounters,
        version: u64,
        backend: WindowsAudioBackend,
        device: String,
    ) -> (outcome: (UwpRun, UwpStep))
        requires
            old(counters).native_generation < u64::MAX,
        ensures
            packet_fits(outcome.0.plan),
            outcome.0.creation.device == device,
            outcome.1 is Call && outcome.0.plan.call == UwpCall::OpenReplacement
                ==> outcome.0.creation.opening == first_sink(backend),
            uwp_state(*final(self), outcome.0.plan, *final(counters), outcome.1) == begun(
                UwpState {
                    sink: *old(self),
                    plan: fresh_plan(
                        UwpGoal::BeginGeneration,
                        old(self).running,
                        version,
                        old(self).active,
                        false,
                        0,
                    ),
                    counters: *old(counters),
                    outcome: UwpOutcome::Done,
                },
                backend,
            ),
    {
        self.begin(counters, UwpGoal::BeginGeneration, version, backend, device, false, 0)
    }

    /// Starts the sink.
    pub fn start(
        &mut self,
        counters: &mut AudioCounters,
        version: u64,
        backend: WindowsAudioBackend,
        device: String,
    ) -> (outcome: (UwpRun, UwpStep))
        requires
            old(counters).native_generation < u64::MAX,
        ensures
            packet_fits(outcome.0.plan),
            outcome.0.creation.device == device,
            outcome.1 is Call && outcome.0.plan.call == UwpCall::OpenReplacement
                ==> outcome.0.creation.opening == first_sink(backend),
            uwp_state(*final(self), outcome.0.plan, *final(counters), outcome.1) == begun(
                UwpState {
                    sink: *old(self),
                    plan: fresh_plan(
                        UwpGoal::Start,
                        old(self).running,
                        version,
                        old(self).active,
                        false,
                        0,
                    ),
                    counters: *old(counters),
                    outcome: UwpOutcome::Done,
                },
                backend,
            ),
    {
        self.begin(counters, UwpGoal::Start, version, backend, device, false, 0)
    }

    /// Writes a packet of `sample_count` samples, or one that is to be passed
    /// through as it is.
    pub fn write(
        &mut self,
        counters: &mut AudioCounters,
        version: u64,
        backend: WindowsAudioBackend,
        device: String,
        passthrough: bool,
        sample_count: usize,
    ) -> (outcome: (UwpRun, UwpStep))
        requires
            old(counters).native_generation < u64::MAX,
            sample_count * 8 <= usize::MAX,
        ensures
            packet_fits(outcome.0.plan),
            outcome.0.creation.device == device,
            outcome.1 is Call && outcome.0.plan.call == UwpCall::OpenReplacement
                ==> outcome.0.creation.opening == first_sink(backend),
            uwp_state(*final(self), outcome.0.plan, *final(counters), outcome.1) == begun(
                UwpState {
                    sink: *old(self),
                    plan: fresh_plan(
                        UwpGoal::Write,
                        old(self).running,
                        version,
                        old(self).active,
                        passthrough,
                        sample_count,
                    ),
                    counters: *old(counters),
                    outcome: UwpOutcome::Done,
                },
                backend,
            ),
    {
        self.begin(counters, UwpGoal::Write, version, backend, device, passthrough, sample_count)
    }

    /// Stops the sink.
    pub fn stop(&mut self, counters: &AudioCounters) -> (outcome: (UwpRun, UwpStep))
        ensures
            packet_fits(outcome.0.plan),
            uwp_state(*final(self), outcome.0.plan, *counters, outcome.1) == stops(
                UwpState {
                    sink: *old(self),
                    plan: fresh_plan(
                        UwpGoal::Stop,
                        old(self).running,
                        old(self).applied_version,
                        old(self).active,
                        false,
                        0,
                    ),
                    counters: *counters,
                    outcome: UwpOutcome::Done,
                },
            ),
    {
        let plan = UwpPlan {
            goal: UwpGoal::Stop,
            call: UwpCall::StopActive,
            was_running: self.running,
            version: self.applied_version,
            replacement: self.active,
            previous: ActiveSink::Idle,
            passthrough: false,
            sample_count: 0,
        };
        let creation = SinkCreation {
            opening: self.active,
            device: String::new(),
            rejected: String::new(),
        };
        self.running = false;
        let step = if self.active == ActiveSink::Idle {
            UwpStep::Done
        } else {
            UwpStep::Call
        };
        (UwpRun { plan, creation }, step)
    }

    /// Does what the reply to the call that was due leads to.
    pub fn advance(&mut self, counters: &mut AudioCounters, run: &mut UwpRun, reply: UwpReply) -> (
        step: UwpStep)
        requires
            old(counters).native_generation < u64::MAX,
            packet_fits(old(run).plan),
        ensures
            packet_fits(final(run).plan),
            final(run).creation.device == old(run).creation.device,
            uwp_state(*final(self), final(run).plan, *final(counters), step) == uwp_step(
                UwpState {
                    sink: *old(self),
                    plan: old(run).plan,
                    counters: *old(counters),
                    outcome: UwpOutcome::Call,
                },
                old(run).creation,
                reply,
            ),
            match reply.result {
                Err(failure) if old(run).plan.call == UwpCall::OpenReplacement && old(
                    run,
                ).creation.opening == ActiveSink::XAudio2 && old(run).creation.device@.len() > 0 => {
                    &&& final(run).creation.opening == ActiveSink::XAudio2Endpoint
                    &&& final(run).creation.rejected == failure.shown
                },
                _ => final(run).creation == old(run).creation,
            },
    {
        match run.plan.call {
            UwpCall::OpenReplacement => match run.creation.opened(reply.result) {
                CreationStep::Open => UwpStep::Call,
                CreationStep::Created => {
                    let opened = run.creation.opening;
                    self.created(&mut run.plan, counters, opened)
                },
                CreationStep::Failed(error) => self.not_selected(&mut run.plan, counters, error),
            },
            UwpCall::StartReplacement => match reply.result {
                Ok(_) => self.replaced(&mut run.plan, counters),
                Err(failure) => self.not_selected(&mut run.plan, counters, failure.error),
            },
            UwpCall::StopPrevious => self.selected(&mut run.plan, counters),
            UwpCall::StartActive => match reply.result {
                Ok(_) => {
                    self.running = true;
                    UwpStep::Done
                },
                Err(failure) => UwpStep::Failed(failure.error),
            },
            UwpCall::StopActive => match reply.result {
                Ok(_) => UwpStep::Done,
                Err(failure) => UwpStep::Failed(failure.error),
            },
            UwpCall::WriteRing => match reply.result {
                Ok(_) => UwpStep::Done,
                Err(failure) => UwpStep::Failed(failure.error),
            },
            UwpCall::WriteNative => match reply.result {
                Ok(_) => {
                    let bytes: usize = self.format.bytes_per_sample() as usize;
                    assert(run.plan.sample_count * bytes <= run.plan.sample_count * 8)
                        by (nonlinear_arith)
                        requires
                            bytes <= 8,
                            run.plan.sample_count >= 0,
                    ;
                    assert(0 <= run.plan.sample_count * bytes) by (nonlinear_arith);
                    let written: usize = run.plan.sample_count * bytes;
                    counters.written.advance(written);
                    UwpStep::Done
                },
                Err(failure) => UwpStep::Failed(failure.error),
            },
            UwpCall::FlushActive => self.native_generation(counters),
            UwpCall::RingGeneration => UwpStep::Generation(reply.generation),
        }
    }

    /// Counts a generation of a native sink.
    fn native_generation(&self, counters: &mut AudioCounters) -> (step: UwpStep)
        requires
            old(counters).native_generation < u64::MAX,
        ensures
            final(counters).written == old(counters).written,
            final(counters).native_generation == old(counters).native_generation + 1,
            step == UwpStep::Generation(final(counters).native_generation),
    {
        counters.native_generation = counters.native_generation + 1;
        UwpStep::Generation(counters.native_generation)
    }

    /// Begins a generation of whatever sink is active.
    fn begins_generation(&self, plan: &mut UwpPlan, counters: &mut AudioCounters) -> (step: UwpStep)
        requires
            old(counters).native_generation < u64::MAX,
        ensures
            forall|outcome: UwpOutcome|
                uwp_state(*self, *final(plan), *final(counters), step)
                    == #[trigger] begins_generation(
                    UwpState { sink: *self, plan: *old(plan), counters: *old(counters), outcome },
                ),
    {
        match self.active {
            ActiveSink::Idle => self.native_generation(counters),
            ActiveSink::Ring => {
                plan.call = UwpCall::RingGeneration;
                UwpStep::Call
            },
            _ => {
                plan.call = UwpCall::FlushActive;
                UwpStep::Call
            },
        }
    }

    /// The chosen backend could not be put in force.
    fn not_selected(
        &self,
        plan: &mut UwpPlan,
        counters: &mut AudioCounters,
        error: SinkError,
    ) -> (step: UwpStep)
        requires
            old(counters).native_generation < u64::MAX,
        ensures
            forall|outcome: UwpOutcome|
                uwp_state(*self, *final(plan), *final(counters), step) == #[trigger] not_selected(
                    UwpState { sink: *self, plan: *old(plan), counters: *old(counters), outcome },
                    error.kind(),
                    error.text(),
                ),
    {
        if plan.goal == UwpGoal::BeginGeneration {
            self.begins_generation(plan, counters)
        } else {
            UwpStep::Failed(error)
        }
    }

    /// Does what the run is for once the chosen backend is in force.
    fn selected(&mut self, plan: &mut UwpPlan, counters: &mut AudioCounters) -> (step: UwpStep)
        requires
            old(counters).native_generation < u64::MAX,
        ensures
            forall|outcome: UwpOutcome|
                uwp_state(*final(self), *final(plan), *final(counters), step)
                    == #[trigger] selected(
                    UwpState {
                        sink: *old(self),
                        plan: *old(plan),
                        counters: *old(counters),
                        outcome,
                    },
                ),
    {
        match plan.goal {
            UwpGoal::BeginGeneration => self.begins_generation(plan, counters),
            UwpGoal::Start => {
                if plan.was_running || self.active == ActiveSink::Idle {
                    self.running = true;
                    UwpStep::Done
                } else {
                    plan.call = UwpCall::StartActive;
                    UwpStep::Call
                }
            },
            UwpGoal::Write => {
                if self.active == ActiveSink::Ring {
                    plan.call = UwpCall::WriteRing;
                    UwpStep::Call
                } else if plan.passthrough {
                    UwpStep::Failed(
                        SinkError::invalid_params(
                            "native Windows PCM backends do not accept passthrough packets",
                        ),
                    )
                } else if self.active == ActiveSink::Idle {
                    UwpStep::Failed(
                        SinkError::not_connected(
                            "native Windows audio backend was not initialized",
                        ),
                    )
                } else {
                    plan.call = UwpCall::WriteNative;
                    UwpStep::Call
                }
            },
            UwpGoal::Stop => UwpStep::Done,
        }
    }

    /// The replacement takes over.
    fn replaced(&mut self, plan: &mut UwpPlan, counters: &mut AudioCounters) -> (step: UwpStep)
        requires
            old(counters).native_generation < u64::MAX,
        ensures
            forall|outcome: UwpOutcome|
                uwp_state(*final(self), *final(plan), *final(counters), step)
                    == #[trigger] replaced(
                    UwpState {
                        sink: *old(self),
                        plan: *old(plan),
                        counters: *old(counters),
                        outcome,
                    },
                ),
    {
        plan.previous = self.active;
        self.active = plan.replacement;
        self.applied_version = plan.version;
        if plan.previous == ActiveSink::Idle {
            self.selected(plan, counters)
        } else {
            plan.call = UwpCall::StopPrevious;
            UwpStep::Call
        }
    }

    /// A sink for the chosen backend is open.
    fn created(
        &mut self,
        plan: &mut UwpPlan,
        counters: &mut AudioCounters,
        replacement: ActiveSink,
    ) -> (step: UwpStep)
        requires
            old(counters).native_generation < u64::MAX,
        ensures
            forall|outcome: UwpOutcome|
                uwp_state(*final(self), *final(plan), *final(counters), step)
                    == #[trigger] created(
                    UwpState {
                        sink: *old(self),
                        plan: *old(plan),
                        counters: *old(counters),
                        outcome,
                    },
                    replacement,
                ),
    {
        plan.replacement = replacement;
        if self.running {
            plan.call = UwpCall::StartReplacement;
            UwpStep::Call
        } else {
            self.replaced(plan, counters)
        }
    }
}

/// The plan of a run that begins.
pub open spec fn fresh_plan(
    goal: UwpGoal,
    was_running: bool,
    version: u64,
    active: ActiveSink,
    passthrough: bool,
    sample_count: usize,
) -> UwpPlan {
    UwpPlan {
        goal,
        call: UwpCall::StopActive,
        was_running,
        version,
        replacement: active,
        previous: ActiveSink::Idle,
        passthrough,
        sample_count,
    }
}

/// A healthy sink is given up only for one that is open, and that plays if the
/// one before played: whatever call fails, the active sink and the choice that it
/// follows stay. If a replacement cannot be opened or started, nothing of the sink
/// changes, and if it cannot be started, a start or a write reports that.
pub proof fn law_playback_survives_a_failed_change(
    x: UwpState,
    creation: SinkCreation,
    reply: UwpReply,
)
    requires
        reply.result is Err,
    ensures
        uwp_step(x, creation, reply).sink.active == x.sink.active,
        uwp_step(x, creation, reply).sink.applied_version == x.sink.applied_version,
        x.plan.call == UwpCall::OpenReplacement || x.plan.call == UwpCall::StartReplacement
            ==> uwp_step(x, creation, reply).sink == x.sink,
        x.plan.call == UwpCall::StartReplacement && x.plan.goal != UwpGoal::BeginGeneration
            ==> uwp_step(x, creation, reply).outcome is Failed,
{
}

/// How a run on a sink was begun.
pub struct UwpStart {
    pub goal: UwpGoal,
    pub sink: UwpSink,
    pub counters: AudioCounters,
    pub version: u64,
    pub backend: WindowsAudioBackend,
    pub passthrough: bool,
    pub sample_count: usize,
}

impl UwpStart {
    /// Whether the sink already follows the choice of a backend.
    pub open spec fn in_force(self) -> bool {
        self.sink.applied_version == self.version && self.sink.active != ActiveSink::Idle
    }
}

/// Whether a run begins with a state and a creation: they are what starting the
/// sink, writing a packet to it or beginning a generation comes to.
pub open spec fn begins_run(start: UwpStart, first: UwpState, creation: SinkCreation) -> bool {
    &&& start.goal != UwpGoal::Stop
    &&& first == begun(
        UwpState {
            sink: start.sink,
            plan: fresh_plan(
                start.goal,
                start.sink.running,
                start.version,
                start.sink.active,
                start.passthrough,
                start.sample_count,
            ),
            counters: start.counters,
            outcome: UwpOutcome::Done,
        },
        start.backend,
    )
    &&& first.outcome is Call && first.plan.call == UwpCall::OpenReplacement ==> creation.opening
        == first_sink(start.backend)
}

/// Whether a creation is what the reply to a call makes of it.
pub open spec fn creation_follows(
    x: UwpState,
    before: SinkCreation,
    reply: UwpReply,
    after: SinkCreation,
) -> bool {
    &&& after.device == before.device
    &&& match reply.result {
        Err(failure) if x.plan.call == UwpCall::OpenReplacement && before.opening
            == ActiveSink::XAudio2 && before.device@.len() > 0 => {
            &&& after.opening == ActiveSink::XAudio2Endpoint
            &&& after.rejected == failure.shown
        },
        _ => after == before,
    }
}

/// Whether reply number `i` leads from one of the states to the next.
pub open spec fn is_uwp_step(
    states: Seq<UwpState>,
    creations: Seq<SinkCreation>,
    replies: Seq<UwpReply>,
    i: int,
) -> bool {
    &&& states[i].outcome is Call
    &&& states[i + 1] == uwp_step(states[i], creations[i], replies[i])
    &&& creation_follows(states[i], creations[i], replies[i], creations[i + 1])
}

/// Whether a run goes through the states, reply by reply.
pub open spec fn is_uwp_run(
    start: UwpStart,
    states: Seq<UwpState>,
    creations: Seq<SinkCreation>,
    replies: Seq<UwpReply>,
) -> bool {
    &&& states.len() == replies.len() + 1
    &&& creations.len() == replies.len() + 1
    &&& begins_run(start, states[0], creations[0])
    &&& forall|i: int|
        0 <= i < replies.len() ==> #[trigger] is_uwp_step(states, creations, replies, i)
}

/// Whether a sink is one for a backend.
pub open spec fn serves(active: ActiveSink, backend: WindowsAudioBackend) -> bool {
    match backend {
        WindowsAudioBackend::RingBuffer => active == ActiveSink::Ring,
        WindowsAudioBackend::Wasapi => active == ActiveSink::Wasapi,
        WindowsAudioBackend::XAudio2 => active == ActiveSink::XAudio2 || active
            == ActiveSink::XAudio2Endpoint,
    }
}

/// Whether a sink is one of the native ones.
pub open spec fn is_native(active: ActiveSink) -> bool {
    active == ActiveSink::Wasapi || active == ActiveSink::XAudio2 || active
        == ActiveSink::XAudio2Endpoint
}

/// The bytes of a sample in a format.
pub open spec fn bytes_of_sample(format: AudioFormat) -> int {
    match format {
        AudioFormat::F64 => 8,
        AudioFormat::F32 | AudioFormat::S32 | AudioFormat::S24 => 4,
        AudioFormat::S24_3 => 3,
        AudioFormat::S16 => 2,
    }
}

/// Whether a call was made before state number `n`.
pub open spec fn was_called(states: Seq<UwpState>, n: int, call: UwpCall) -> bool {
    exists|j: int| 0 <= j < n && (#[trigger] states[j]).plan.call == call
}

/// Whether a call was made before state number `n`, and succeeded.
pub open spec fn has_succeeded(
    states: Seq<UwpState>,
    replies: Seq<UwpReply>,
    n: int,
    call: UwpCall,
) -> bool {
    exists|j: int|
        0 <= j < n && (#[trigger] states[j]).plan.call == call && replies[j].result is Ok
}

/// Whether a sink has changed over to the chosen backend by state number `n`. A
/// sink that played is given up for one that was started.
pub open spec fn has_changed_over(
    start: UwpStart,
    states: Seq<UwpState>,
    replies: Seq<UwpReply>,
    n: int,
) -> bool {
    &&& !start.in_force()
    &&& states[n].sink.applied_version == start.version
    &&& serves(states[n].sink.active, start.backend)
    &&& start.sink.running ==> has_succeeded(states, replies, n, UwpCall::StartReplacement)
}

/// Whether the chosen backend is in force at state number `n`, and the sink that
/// it replaced, if it did, was stopped.
pub open spec fn has_settled(
    start: UwpStart,
    states: Seq<UwpState>,
    replies: Seq<UwpReply>,
    n: int,
) -> bool {
    ||| start.in_force() && states[n].sink == start.sink
    ||| has_changed_over(start, states, replies, n) && (start.sink.active != ActiveSink::Idle
        ==> was_called(states, n, UwpCall::StopPrevious))
}

/// What holds wherever a call is due in a run.
spec fn is_due(
    start: UwpStart,
    states: Seq<UwpState>,
    creations: Seq<SinkCreation>,
    replies: Seq<UwpReply>,
    i: int,
) -> bool {
    let x = states[i];
    &&& x.plan.goal == start.goal
    &&& x.plan.version == start.version
    &&& x.plan.was_running == start.sink.running
    &&& x.plan.passthrough == start.passthrough
    &&& x.plan.sample_count == start.sample_count
    &&& x.sink.format == start.sink.format
    &&& x.sink.running == start.sink.running
    &&& x.counters == start.counters
    &&& match x.plan.call {
        UwpCall::OpenReplacement => {
            &&& x.sink == start.sink
            &&& !start.in_force()
            &&& serves(creations[i].opening, start.backend)
            &&& i <= 1
            &&& creations[i].opening == ActiveSink::XAudio2Endpoint <==> i == 1
        },
        UwpCall::StartReplacement => {
            &&& x.sink == start.sink
            &&& !start.in_force()
            &&& start.sink.running
            &&& serves(x.plan.replacement, start.backend)
            &&& i <= 2
        },
        UwpCall::StopPrevious => {
            &&& has_changed_over(start, states, replies, i)
            &&& x.plan.previous == start.sink.active
            &&& start.sink.active != ActiveSink::Idle
            &&& i <= 3
        },
        UwpCall::StartActive => {
            &&& start.goal == UwpGoal::Start
            &&& !start.sink.running
            &&& has_settled(start, states, replies, i)
            &&& i <= 4
        },
        UwpCall::WriteRing => {
            &&& start.goal == UwpGoal::Write
            &&& x.sink.active == ActiveSink::Ring
            &&& has_settled(start, states, replies, i)
            &&& i <= 4
        },
        UwpCall::WriteNative => {
            &&& start.goal == UwpGoal::Write
            &&& is_native(x.sink.active)
            &&& !start.passthrough
            &&& has_settled(start, states, replies, i)
            &&& i <= 4
        },
        UwpCall::FlushActive => {
            &&& start.goal == UwpGoal::BeginGeneration
            &&& is_native(x.sink.active)
            &&& i <= 4
        },
        UwpCall::RingGeneration => {
            &&& start.goal == UwpGoal::BeginGeneration
            &&& x.sink.active == ActiveSink::Ring
            &&& i <= 4
        },
        UwpCall::StopActive => false,
    }
}

proof fn lemma_is_due(
    start: UwpStart,
    states: Seq<UwpState>,
    creations: Seq<SinkCreation>,
    replies: Seq<UwpReply>,
    i: int,
)
    requires
        is_uwp_run(start, states, creations, replies),
        0 <= i < states.len(),
        states[i].outcome is Call,
    ensures
        is_due(start, states, creations, replies, i),
    decreases i,
{
    if i > 0 {
        let before = i - 1;
        assert(is_uwp_step(states, creations, replies, before));
        lemma_is_due(start, states, creations, replies, before);
        let x = states[before];
        if x.plan.call == UwpCall::StartReplacement && replies[before].result is Ok {
            assert(has_succeeded(states, replies, i, UwpCall::StartReplacement));
        }
        if x.plan.call == UwpCall::StopPrevious {
            assert(was_called(states, i, UwpCall::StopPrevious));
            if start.sink.running {
                let j = choose|j: int|
                    0 <= j < before && (#[trigger] states[j]).plan.call == UwpCall::StartReplacement
                        && replies[j].result is Ok;
                assert(0 <= j < i && states[j].plan.call == UwpCall::StartReplacement
                    && replies[j].result is Ok);
                assert(has_succeeded(states, replies, i, UwpCall::StartReplacement));
            }
        }
    }
}

/// What a run that did not end at once came to follows from its last call.
proof fn lemma_last_call(
    start: UwpStart,
    states: Seq<UwpState>,
    creations: Seq<SinkCreation>,
    replies: Seq<UwpReply>,
)
    requires
        is_uwp_run(start, states, creations, replies),
        replies.len() > 0,
    ensures
        is_due(start, states, creations, replies, replies.len() - 1),
        states[replies.len() - 1].outcome is Call,
        states.last() == uwp_step(
            states[replies.len() - 1],
            creations[replies.len() - 1],
            replies.last(),
        ),
{
    let last = replies.len() - 1;
    assert(is_uwp_step(states, creations, replies, last));
    lemma_is_due(start, states, creations, replies, last);
    assert(states[last + 1] == states.last());
}

/// A write that ends without an error has handed its packet on. Whatever sink is
/// active and whatever choice it is to follow, the run ends in success only
/// after the packet was written: to the ring, where that is active, or to the
/// native sink that is active. Then, and not before, a native write has counted
/// the bytes of the samples; a write to the ring leaves that to the ring. The
/// packet is written once, and no packet that is passed through goes to a native
/// sink.
pub proof fn law_a_write_hands_its_packet_on(
    start: UwpStart,
    states: Seq<UwpState>,
    creations: Seq<SinkCreation>,
    replies: Seq<UwpReply>,
)
    requires
        is_uwp_run(start, states, creations, replies),
        start.goal == UwpGoal::Write,
        start.sample_count * 8 <= usize::MAX,
        states.last().outcome is Done,
    ensures
        replies.len() > 0,
        replies.last().result is Ok,
        ({
            let call = states[replies.len() - 1].plan.call;
            let active = states.last().sink.active;
            let before = start.counters;
            let after = states.last().counters;
            let bytes = start.sample_count * bytes_of_sample(start.sink.format);
            &&& active == ActiveSink::Ring ==> call == UwpCall::WriteRing && after == before
            &&& active != ActiveSink::Ring ==> {
                &&& call == UwpCall::WriteNative
                &&& is_native(active)
                &&& !start.passthrough
                &&& before.written.total + bytes <= usize::MAX ==> after.written.total
                    == before.written.total + bytes
                &&& before.written.total + bytes > usize::MAX ==> after.written.total
                    + usize::MAX + 1 == before.written.total + bytes
                &&& after.native_generation == before.native_generation
            }
            &&& states[replies.len() - 1].sink.active == active
        }),
        forall|i: int|
            0 <= i < replies.len() ==> (#[trigger] states[i]).counters == start.counters && (i
                < replies.len() - 1 ==> states[i].plan.call != UwpCall::WriteRing
                && states[i].plan.call != UwpCall::WriteNative),
{
    if replies.len() > 0 {
        lemma_last_call(start, states, creations, replies);
        let bytes = bytes_of_sample(start.sink.format);
        assert(0 <= start.sample_count * bytes <= start.sample_count * 8) by (nonlinear_arith)
            requires
                0 <= bytes <= 8,
                start.sample_count >= 0,
        ;
        assert(start.sink.format.sample_bytes() == bytes);
        assert forall|i: int| 0 <= i < replies.len() implies (#[trigger] states[i]).counters
            == start.counters && (i < replies.len() - 1 ==> states[i].plan.call
            != UwpCall::WriteRing && states[i].plan.call != UwpCall::WriteNative) by {
            assert(is_uwp_step(states, creations, replies, i));
            lemma_is_due(start, states, creations, replies, i);
            if i < replies.len() - 1 {
                assert(is_uwp_step(states, creations, replies, i + 1));
            }
        }
    }
}

/// A write fails only for cause: the last call failed, or a packet that is to be
/// passed through met a native sink. It then reports what the call reported, and
/// has counted nothing.
pub proof fn law_a_write_fails_only_for_cause(
    start: UwpStart,
    states: Seq<UwpState>,
    creations: Seq<SinkCreation>,
    replies: Seq<UwpReply>,
    kind: SinkErrorKind,
    message: Seq<char>,
)
    requires
        is_uwp_run(start, states, creations, replies),
        start.goal == UwpGoal::Write,
        states.last().outcome == UwpOutcome::Failed(kind, message),
    ensures
        states.last().counters == start.counters,
        states.last().sink.running == start.sink.running,
        start.passthrough && is_native(states.last().sink.active) && kind
            == SinkErrorKind::InvalidParams || replies.len() > 0 && replies.last().result is Err,
        !start.passthrough ==> replies.len() > 0 && replies.last().result is Err,
        !start.passthrough && states[replies.len() - 1].plan.call != UwpCall::OpenReplacement ==> (
        replies.last().result matches Err(failure) && kind == failure.error.kind() && message
            == failure.error.text()),
{
    if replies.len() > 0 {
        lemma_last_call(start, states, creations, replies);
    }
}

/// A packet for a sink that already follows the choice goes to that sink at
/// once: the first call of the run writes it, and until the call is answered
/// nothing of the sink and nothing that is counted changes.
pub proof fn law_a_packet_goes_to_the_sink_in_force(
    start: UwpStart,
    first: UwpState,
    creation: SinkCreation,
)
    requires
        begins_run(start, first, creation),
        start.goal == UwpGoal::Write,
        start.in_force(),
        start.sink.active == ActiveSink::Ring || !start.passthrough,
    ensures
        first.outcome is Call,
        first.sink == start.sink,
        first.counters == start.counters,
        start.sink.active == ActiveSink::Ring ==> first.plan.call == UwpCall::WriteRing,
        start.sink.active != ActiveSink::Ring ==> first.plan.call == UwpCall::WriteNative,
{
}

/// A start or a write that succeeds has put the chosen backend in force. A sink
/// that already followed the choice is kept. Another gives way to one for the
/// chosen backend: that was started before it took over, if the one before
/// played, and the one before, if there was one, was stopped.
pub proof fn law_success_puts_the_choice_in_force(
    start: UwpStart,
    states: Seq<UwpState>,
    creations: Seq<SinkCreation>,
    replies: Seq<UwpReply>,
)
    requires
        is_uwp_run(start, states, creations, replies),
        states.last().outcome is Done,
    ensures
        ({
            let sink = states.last().sink;
            let n = replies.len() as int;
            &&& sink.applied_version == start.version
            &&& sink.active != ActiveSink::Idle
            &&& sink.format == start.sink.format
            &&& start.in_force() ==> sink.active == start.sink.active
            &&& !start.in_force() ==> {
                &&& serves(sink.active, start.backend)
                &&& start.sink.running ==> has_succeeded(
                    states,
                    replies,
                    n,
                    UwpCall::StartReplacement,
                )
                &&& start.sink.active != ActiveSink::Idle ==> was_called(
                    states,
                    n,
                    UwpCall::StopPrevious,
                )
            }
            &&& start.goal == UwpGoal::Write ==> sink.running == start.sink.running
        }),
{
    if replies.len() > 0 {
        lemma_last_call(start, states, creations, replies);
        let last = replies.len() - 1;
        let n = replies.len() as int;
        let call = states[last].plan.call;
        if call == UwpCall::StopPrevious {
            assert(was_called(states, n, UwpCall::StopPrevious));
        }
        if call == UwpCall::StartReplacement {
            assert(has_succeeded(states, replies, n, UwpCall::StartReplacement));
        }
        if was_called(states, last, UwpCall::StopPrevious) {
            let j = choose|j: int|
                0 <= j < last && (#[trigger] states[j]).plan.call == UwpCall::StopPrevious;
            assert(0 <= j < n && states[j].plan.call == UwpCall::StopPrevious);
        }
        if has_succeeded(states, replies, last, UwpCall::StartReplacement) {
            let j = choose|j: int|
                0 <= j < last && (#[trigger] states[j]).plan.call == UwpCall::StartReplacement
                    && replies[j].result is Ok;
            assert(0 <= j < n && states[j].plan.call == UwpCall::StartReplacement
                && replies[j].result is Ok);
        }
    }
}

/// The sink before a change is stopped only once another has taken over, and the
/// other was started first if the one before played: as long as the change is
/// not made, the sink is as it was.
pub proof fn law_nothing_is_stopped_before_a_change(
    start: UwpStart,
    states: Seq<UwpState>,
    creations: Seq<SinkCreation>,
    replies: Seq<UwpReply>,
    i: int,
)
    requires
        is_uwp_run(start, states, creations, replies),
        0 <= i < states.len(),
        states[i].outcome is Call,
    ensures
        ({
            let x = states[i];
            &&& x.plan.call != UwpCall::StopActive
            &&& x.sink.running == start.sink.running
            &&& x.sink.active != start.sink.active || x.sink.applied_version
                != start.sink.applied_version ==> {
                &&& x.sink.applied_version == start.version
                &&& serves(x.sink.active, start.backend)
            }
            &&& x.plan.call == UwpCall::StopPrevious ==> {
                &&& x.plan.previous == start.sink.active
                &&& x.sink.applied_version == start.version
                &&& serves(x.sink.active, start.backend)
                &&& start.sink.running ==> has_succeeded(
                    states,
                    replies,
                    i,
                    UwpCall::StartReplacement,
                )
            }
            &&& x.plan.call == UwpCall::OpenReplacement ==> x.sink == start.sink && serves(
                creations[i].opening,
                start.backend,
            )
            &&& x.plan.call == UwpCall::StartReplacement ==> x.sink == start.sink && serves(
                x.plan.replacement,
                start.backend,
            ) && start.sink.running
        }),
    decreases i,
{
    lemma_is_due(start, states, creations, replies, i);
    if i > 0 {
        assert(is_uwp_step(states, creations, replies, i - 1));
        law_nothing_is_stopped_before_a_change(start, states, creations, replies, i - 1);
    }
}

/// A start that succeeds leaves a sink that runs, and counts nothing. A sink that
/// did not run was started by the last call; one that ran is not started again.
pub proof fn law_a_start_starts_the_sink(
    start: UwpStart,
    states: Seq<UwpState>,
    creations: Seq<SinkCreation>,
    replies: Seq<UwpReply>,
)
    requires
        is_uwp_run(start, states, creations, replies),
        start.goal == UwpGoal::Start,
        states.last().outcome is Done,
    ensures
        states.last().sink.running,
        states.last().counters == start.counters,
        !start.sink.running ==> replies.len() > 0 && states[replies.len() - 1].plan.call
            == UwpCall::StartActive && replies.last().result is Ok,
        start.sink.running ==> forall|i: int|
            0 <= i < replies.len() ==> (#[trigger] states[i]).plan.call != UwpCall::StartActive,
{
    if replies.len() > 0 {
        lemma_last_call(start, states, creations, replies);
    }
    assert forall|i: int| start.sink.running && 0 <= i < replies.len() implies (
    #[trigger] states[i]).plan.call != UwpCall::StartActive by {
        assert(is_uwp_step(states, creations, replies, i));
        lemma_is_due(start, states, creations, replies, i);
    }
}

/// A start that fails reports the call that failed, and leaves the sink stopped
/// or running as it was.
pub proof fn law_a_start_fails_only_for_cause(
    start: UwpStart,
    states: Seq<UwpState>,
    creations: Seq<SinkCreation>,
    replies: Seq<UwpReply>,
    kind: SinkErrorKind,
    message: Seq<char>,
)
    requires
        is_uwp_run(start, states, creations, replies),
        start.goal == UwpGoal::Start,
        states.last().outcome == UwpOutcome::Failed(kind, message),
    ensures
        states.last().counters == start.counters,
        states.last().sink.running == start.sink.running,
        replies.len() > 0,
        replies.last().result is Err,
        states[replies.len() - 1].plan.call != UwpCall::OpenReplacement ==> (
        replies.last().result matches Err(failure) && kind == failure.error.kind() && message
            == failure.error.text()),
{
    if replies.len() > 0 {
        lemma_last_call(start, states, creations, replies);
    }
}

/// A generation begins whatever becomes of the chosen backend: the run never
/// fails. Where the ring is active the generation is the one that the ring began;
/// elsewhere it is the next in the count, after a native sink was flushed. No
/// bytes are counted.
pub proof fn law_a_generation_always_begins(
    start: UwpStart,
    states: Seq<UwpState>,
    creations: Seq<SinkCreation>,
    replies: Seq<UwpReply>,
)
    requires
        is_uwp_run(start, states, creations, replies),
        start.goal == UwpGoal::BeginGeneration,
        start.counters.native_generation < u64::MAX,
    ensures
        states.last().outcome is Call || states.last().outcome is Generation,
        states.last().sink.running == start.sink.running,
        states.last().counters.written == start.counters.written,
        states.last().outcome matches UwpOutcome::Generation(generation) ==> {
            let active = states.last().sink.active;
            let counters = states.last().counters;
            &&& active == ActiveSink::Ring ==> replies.len() > 0 && states[replies.len()
                - 1].plan.call == UwpCall::RingGeneration && generation
                == replies.last().generation && counters == start.counters
            &&& active != ActiveSink::Ring ==> generation == start.counters.native_generation + 1
                && counters.native_generation == generation
            &&& is_native(active) ==> replies.len() > 0 && states[replies.len() - 1].plan.call
                == UwpCall::FlushActive
        },
{
    if states.last().outcome is Call {
        lemma_is_due(start, states, creations, replies, states.len() - 1);
    }
    if replies.len() > 0 {
        lemma_last_call(start, states, creations, replies);
    }
}

/// A run ends after at most five calls.
pub proof fn law_a_run_ends(
    start: UwpStart,
    states: Seq<UwpState>,
    creations: Seq<SinkCreation>,
    replies: Seq<UwpReply>,
)
    requires
        is_uwp_run(start, states, creations, replies),
    ensures
        replies.len() <= 5,
        replies.len() == 5 ==> !(states.last().outcome is Call),
{
    if replies.len() > 0 {
        lemma_last_call(start, states, creations, replies);
    }
    if states.last().outcome is Call {
        lemma_is_due(start, states, creations, replies, states.len() - 1);
    }
}

/// Stopping a sink leaves one that does not run and is otherwise as it was, and
/// counts nothing. A sink that was opened is stopped by one call, whose failure
/// is reported; one that was not has nothing to stop.
pub proof fn law_a_stop_stops_the_sink(
    x: UwpState,
    creation: SinkCreation,
    reply: UwpReply,
)
    ensures
        ({
            let first = stops(x);
            let next = uwp_step(first, creation, reply);
            &&& first.sink == (UwpSink { running: false, ..x.sink })
            &&& first.counters == x.counters
            &&& x.sink.active == ActiveSink::Idle ==> first.outcome is Done
            &&& x.sink.active != ActiveSink::Idle ==> {
                &&& first.outcome is Call && first.plan.call == UwpCall::StopActive
                &&& next.sink == first.sink && next.counters == x.counters
                &&& reply.result is Ok <==> next.outcome is Done
                &&& reply.result matches Err(failure) ==> next.outcome == UwpOutcome::Failed(
                    failure.error.kind(),
                    failure.error.text(),
                )
            }
        }),
{
}

/// A device that XAudio2 rejects is tried once more, with the renderer that
/// stands in for it, and only a device that is named. What is reported in the end
/// names both reasons.
pub proof fn law_a_rejected_device_is_tried_once_more(
    x: UwpState,
    creation: SinkCreation,
    reply: UwpReply,
)
    requires
        x.outcome is Call,
        x.plan.call == UwpCall::OpenReplacement,
        x.plan.goal != UwpGoal::BeginGeneration,
    ensures
        ({
            let next = uwp_step(x, creation, reply);
            reply.result matches Err(failure) ==> {
                &&& creation.opening == ActiveSink::XAudio2 && creation.device@.len() > 0
                    <==> next.outcome is Call
                &&& next.outcome is Call ==> next == x
                &&& creation.opening == ActiveSink::XAudio2Endpoint ==> (next.outcome matches
                    UwpOutcome::Failed(kind, message) && kind == SinkErrorKind::NotConnected
                    && message == "XAudio2 endpoint failed ("@ + creation.rejected@
                    + "); compatibility endpoint failed ("@ + failure.shown@ + ")"@)
                &&& !(next.outcome is Call) && creation.opening != ActiveSink::XAudio2Endpoint
                    ==> next.outcome == UwpOutcome::Failed(
                    failure.error.kind(),
                    failure.error.text(),
                )
                &&& next.sink == x.sink
            }
        }),
{
}

/// A step shows what it is, with the kind and the text of its error.
pub proof fn law_a_step_shows_what_it_is(
    sink: UwpSink,
    plan: UwpPlan,
    counters: AudioCounters,
    step: UwpStep,
)
    ensures
        ({
            let x = uwp_state(sink, plan, counters, step);
            &&& x.sink == sink && x.plan == plan && x.counters == counters
            &&& x.outcome is Call <==> step is Call
            &&& x.outcome is Done <==> step is Done
            &&& x.outcome is Generation <==> step is Generation
            &&& step matches UwpStep::Generation(generation) ==> x.outcome
                == UwpOutcome::Generation(generation)
            &&& step matches UwpStep::Failed(error) ==> x.outcome == UwpOutcome::Failed(
                error.kind(),
                error.text(),
            )
        }),
{
}

/// What is opened first for a backend is a sink for that backend and for no other,
/// and never the renderer that stands in for a rejected device.
pub proof fn law_a_backend_opens_its_own_sink(one: WindowsAudioBackend, other: WindowsAudioBackend)
    ensures
        serves(first_sink(one), one),
        serves(first_sink(one), other) <==> one == other,
        first_sink(one) != ActiveSink::Idle,
        first_sink(one) != ActiveSink::XAudio2Endpoint,
        is_native(first_sink(one)) <==> one != WindowsAudioBackend::RingBuffer,
{
}

} // verus!
