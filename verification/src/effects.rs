//! Sound effects: which are on, the calls that put them into a voice, and the
//! delay lines of the renderer that works without a voice.
use crate::sink::{SinkError, SinkErrorKind};
use crate::windows_native::{check_hr, HResult};
use vstd::prelude::*;

verus! {

/// The curve of the equalizer.
#[derive(Debug, Clone, Copy, PartialEq, Eq, Structural)]
pub enum EffectsPreset {
    Disabled,
    BassBoost,
    VocalBoost,
    Warm,
    Equalizer,
}

/// The number of gains of the equalizer.
pub const GAIN_COUNT: usize = 5;

impl EffectsPreset {
    /// The number that stands for the preset.
    pub open spec fn raw(self) -> u32 {
        match self {
            EffectsPreset::Disabled => 0,
            EffectsPreset::BassBoost => 1,
            EffectsPreset::VocalBoost => 2,
            EffectsPreset::Warm => 3,
            EffectsPreset::Equalizer => 4,
        }
    }

    /// The preset that a number stands for; other numbers stand for no preset.
    pub fn from_raw(value: u32) -> (preset: EffectsPreset)
        ensures
            value <= 4 ==> preset.raw() == value,
            value > 4 ==> preset == EffectsPreset::Disabled,
    {
        match value {
            1 => EffectsPreset::BassBoost,
            2 => EffectsPreset::VocalBoost,
            3 => EffectsPreset::Warm,
            4 => EffectsPreset::Equalizer,
            _ => EffectsPreset::Disabled,
        }
    }
}

/// The gain in decibels at full strength that a preset has at a frequency.
pub open spec fn gain_at(preset: EffectsPreset, frequency: u32) -> int {
    match preset {
        EffectsPreset::BassBoost => if frequency <= 125 {
            8
        } else if frequency <= 500 {
            5
        } else if frequency <= 2_000 {
            2
        } else if frequency <= 6_000 {
            -1
        } else {
            -2
        },
        EffectsPreset::VocalBoost => if frequency <= 125 {
            -3
        } else if frequency <= 500 {
            -1
        } else if frequency <= 4_000 {
            5
        } else if frequency <= 8_000 {
            4
        } else {
            2
        },
        EffectsPreset::Warm => if frequency <= 125 {
            4
        } else if frequency <= 500 {
            3
        } else if frequency <= 2_000 {
            1
        } else if frequency <= 6_000 {
            -1
        } else {
            -2
        },
        _ => 0,
    }
}

/// The gain in decibels at full strength that a preset has at a frequency.
pub fn preset_gain(preset: EffectsPreset, frequency: u32) -> (gain: i32)
    ensures
        gain == gain_at(preset, frequency),
{
    match preset {
        EffectsPreset::BassBoost => if frequency <= 125 {
            8
        } else if frequency <= 500 {
            5
        } else if frequency <= 2_000 {
            2
        } else if frequency <= 6_000 {
            -1
        } else {
            -2
        },
        EffectsPreset::VocalBoost => if frequency <= 125 {
            -3
        } else if frequency <= 500 {
            -1
        } else if frequency <= 4_000 {
            5
        } else if frequency <= 8_000 {
            4
        } else {
            2
        },
        EffectsPreset::Warm => if frequency <= 125 {
            4
        } else if frequency <= 500 {
            3
        } else if frequency <= 2_000 {
            1
        } else if frequency <= 6_000 {
            -1
        } else {
            -2
        },
        _ => 0,
    }
}

/// The gains in decibels at full strength of the five filters, from the lowest
/// to the highest; nothing for the preset whose gains are set one by one.
pub open spec fn filter_gains(preset: EffectsPreset) -> Option<Seq<int>> {
    match preset {
        EffectsPreset::Disabled => Some(seq![0, 0, 0, 0, 0]),
        EffectsPreset::BassBoost => Some(seq![8, 5, 2, -1, -2]),
        EffectsPreset::VocalBoost => Some(seq![-3, -1, 3, 5, 2]),
        EffectsPreset::Warm => Some(seq![4, 3, 1, -1, -2]),
        EffectsPreset::Equalizer => None,
    }
}

/// The gains in decibels at full strength of the five filters of a preset.
pub fn effect_gains(preset: EffectsPreset) -> (gains: Option<[i32; 5]>)
    ensures
        gains is Some <==> filter_gains(preset) is Some,
        gains matches Some(values) ==> forall|i: int|
            0 <= i < 5 ==> #[trigger] values@[i] == filter_gains(preset)->Some_0[i],
{
    match preset {
        EffectsPreset::Disabled => Some([0, 0, 0, 0, 0]),
        EffectsPreset::BassBoost => Some([8, 5, 2, -1, -2]),
        EffectsPreset::VocalBoost => Some([-3, -1, 3, 5, 2]),
        EffectsPreset::Warm => Some([4, 3, 1, -1, -2]),
        EffectsPreset::Equalizer => None,
    }
}

/// The effects that are asked for. `L` is the type of levels.
#[derive(Debug, Clone, Copy)]
pub struct EffectsConfig<L> {
    pub preset: EffectsPreset,
    pub strength: L,
    pub echo: bool,
    pub reverb: bool,
    pub limiter: bool,
    pub equalizer_gains_db: [L; 5],
    /// Goes up by one with every change and starts again at zero.
    pub version: u64,
}

impl<L> EffectsConfig<L> {
    /// Whether no effect changes a sample.
    pub open spec fn passes_through(self) -> bool {
        self.preset == EffectsPreset::Disabled && !self.echo && !self.reverb && !self.limiter
    }
}

impl<L: Copy> EffectsConfig<L> {
    /// No effects, at full strength `full` and with gains of `zero`.
    pub fn disabled(full: L, zero: L) -> (config: EffectsConfig<L>)
        ensures
            config.passes_through(),
            config.strength == full,
            config.equalizer_gains_db@ == seq![zero, zero, zero, zero, zero],
            config.version == 0,
    {
        EffectsConfig {
            preset: EffectsPreset::Disabled,
            strength: full,
            echo: false,
            reverb: false,
            limiter: false,
            equalizer_gains_db: [zero, zero, zero, zero, zero],
            version: 0,
        }
    }

    /// Whether no effect changes a sample.
    pub fn is_passthrough(&self) -> (passes: bool)
        ensures
            passes == self.passes_through(),
    {
        self.preset == EffectsPreset::Disabled && !self.echo && !self.reverb && !self.limiter
    }

    /// Asks for other effects.
    pub fn set_effects(
        &mut self,
        preset: u32,
        strength: L,
        echo: bool,
        reverb: bool,
        limiter: bool,
        gains: [L; 5],
    )
        ensures
            preset <= 4 ==> final(self).preset.raw() == preset,
            preset > 4 ==> final(self).preset == EffectsPreset::Disabled,
            final(self).strength == strength,
            final(self).echo == echo,
            final(self).reverb == reverb,
            final(self).limiter == limiter,
            final(self).equalizer_gains_db == gains,
            final(self).version == if old(self).version == u64::MAX {
                0
            } else {
                old(self).version + 1
            },
    {
        self.preset = EffectsPreset::from_raw(preset);
        self.strength = strength;
        self.echo = echo;
        self.reverb = reverb;
        self.limiter = limiter;
        self.equalizer_gains_db = gains;
        self.version = self.version.wrapping_add(1);
    }
}

/// The five gains out of a list: those that the list has, from the first on, and
/// `zero` for the others.
pub fn taken_gains<L: Copy>(source: &[L], zero: L) -> (gains: [L; 5])
    ensures
        forall|i: int|
            0 <= i < 5 ==> #[trigger] gains@[i] == if i < source@.len() {
                source@[i]
            } else {
                zero
            },
{
    let mut gains = [zero, zero, zero, zero, zero];
    let mut i: usize = 0;
    while i < GAIN_COUNT && i < source.len()
        invariant
            i <= 5,
            i <= source@.len(),
            forall|k: int|
                0 <= k < 5 ==> #[trigger] gains@[k] == if k < i {
                    source@[k]
                } else {
                    zero
                },
        decreases 5 - i,
    {
        gains[i] = source[i];
        i = i + 1;
    }
    gains
}

/// The effects of a voice.
#[derive(Debug, Clone, Copy, PartialEq, Eq, Structural)]
pub enum VoiceEffect {
    Equalizer,
    Echo,
    Reverb,
    Limiter,
}

/// The voices that the source voice sends to.
#[derive(Debug, Clone, Copy, PartialEq, Eq, Structural)]
pub enum SendTarget {
    Mastering,
    Reverb,
}

/// A call that puts effects into a voice.
#[derive(Debug, Clone, Copy, PartialEq, Eq, Structural)]
pub enum EffectCall {
    SetParameters(VoiceEffect),
    Enable(VoiceEffect),
    Disable(VoiceEffect),
    SetSendGain(SendTarget),
    SetHeadroom,
    Commit,
}

/// The calls that switch an effect on, with its parameters, or off.
pub open spec fn switch_calls(effect: VoiceEffect, enabled: bool) -> Seq<EffectCall> {
    if enabled {
        seq![EffectCall::SetParameters(effect), EffectCall::Enable(effect)]
    } else {
        seq![EffectCall::Disable(effect)]
    }
}

/// The calls that put effects into a voice, in their order.
pub open spec fn calls_for<L>(config: EffectsConfig<L>) -> Seq<EffectCall> {
    switch_calls(VoiceEffect::Equalizer, config.preset != EffectsPreset::Disabled) + switch_calls(
        VoiceEffect::Echo,
        config.echo,
    ) + switch_calls(VoiceEffect::Reverb, config.reverb) + seq![
        EffectCall::SetSendGain(SendTarget::Mastering),
        EffectCall::SetSendGain(SendTarget::Reverb),
    ] + switch_calls(VoiceEffect::Limiter, config.limiter) + seq![
        EffectCall::SetHeadroom,
        EffectCall::Commit,
    ]
}

/// The name by which a failing call is reported.
pub open spec fn effect_call_name(call: EffectCall) -> Seq<char> {
    match call {
        EffectCall::SetParameters(_) => "IXAudio2Voice::SetEffectParameters"@,
        EffectCall::Enable(_) => "IXAudio2Voice effect state"@,
        EffectCall::Disable(_) => "IXAudio2Voice effect state"@,
        EffectCall::SetSendGain(_) => "IXAudio2Voice::SetOutputMatrix"@,
        EffectCall::SetHeadroom => "IXAudio2Voice::SetVolume(effect headroom)"@,
        EffectCall::Commit => "IXAudio2::CommitChanges(effects)"@,
    }
}

/// Why applying the effects fails can be handed to C.
pub proof fn law_failed_effects_can_be_told(call: EffectCall, code: HResult)
    ensures
        crate::text::has_no_nul(
            crate::windows_native::failure_text(effect_call_name(call), code),
        ),
{
    reveal_strlit("IXAudio2Voice::SetEffectParameters");
    reveal_strlit("IXAudio2Voice effect state");
    reveal_strlit("IXAudio2Voice::SetOutputMatrix");
    reveal_strlit("IXAudio2Voice::SetVolume(effect headroom)");
    reveal_strlit("IXAudio2::CommitChanges(effects)");
    crate::windows_native::law_failures_can_be_told(effect_call_name(call), code);
}

/// Adds the calls that switch an effect on or off.
fn push_switch(calls: &mut Vec<EffectCall>, effect: VoiceEffect, enabled: bool)
    ensures
        final(calls)@ == old(calls)@ + switch_calls(effect, enabled),
{
    if enabled {
        calls.push(EffectCall::SetParameters(effect));
        calls.push(EffectCall::Enable(effect));
    } else {
        calls.push(EffectCall::Disable(effect));
    }
}

/// The calls that put effects into a voice, in their order.
pub fn effect_calls<L>(config: &EffectsConfig<L>) -> (calls: Vec<EffectCall>)
    ensures
        calls@ == calls_for(*config),
{
    let mut calls = Vec::new();
    push_switch(&mut calls, VoiceEffect::Equalizer, config.preset != EffectsPreset::Disabled);
    push_switch(&mut calls, VoiceEffect::Echo, config.echo);
    push_switch(&mut calls, VoiceEffect::Reverb, config.reverb);
    calls.push(EffectCall::SetSendGain(SendTarget::Mastering));
    calls.push(EffectCall::SetSendGain(SendTarget::Reverb));
    push_switch(&mut calls, VoiceEffect::Limiter, config.limiter);
    calls.push(EffectCall::SetHeadroom);
    calls.push(EffectCall::Commit);
    calls
}

/// Effects that are being put into a voice.
#[derive(Debug)]
pub struct EffectsRun {
    pub calls: Vec<EffectCall>,
    pub next: usize,
    pub version: u64,
}

/// Where the application of effects stands after a call.
#[derive(Debug)]
pub enum EffectsStep {
    /// The next call is due.
    Call,
    /// The voice has the effects of this version.
    Applied(u64),
    Failed(SinkError),
}

/// Whether a run is what the result code of the call that was due makes of it:
/// the first failure ends the run, and the last success applies the version.
pub open spec fn is_advanced(
    run: EffectsRun,
    code: HResult,
    after: EffectsRun,
    step: EffectsStep,
) -> bool {
    let last = run.next + 1 == run.calls@.len();
    &&& after.calls == run.calls
    &&& after.version == run.version
    &&& match step {
        EffectsStep::Failed(error) => {
            &&& code < 0
            &&& error.is(
                SinkErrorKind::NotConnected,
                crate::windows_native::failure_text(
                    effect_call_name(run.calls@[run.next as int]),
                    code,
                ),
            )
            &&& after.next == run.next
        },
        EffectsStep::Call => {
            &&& code >= 0
            &&& !last
            &&& after.next == run.next + 1
            &&& after.wf()
        },
        EffectsStep::Applied(version) => {
            &&& code >= 0
            &&& last
            &&& version == run.version
            &&& after.next == run.next
        },
    }
}

impl EffectsRun {
    /// Whether a call is due.
    pub open spec fn wf(self) -> bool {
        self.next < self.calls@.len()
    }

    /// Begins to put effects into a voice, unless it has those of that version.
    pub fn begin<L>(applied_version: u64, config: &EffectsConfig<L>) -> (run: Option<EffectsRun>)
        ensures
            run is None <==> config.version == applied_version,
            run matches Some(r) ==> r.calls@ == calls_for(*config) && r.next == 0 && r.version
                == config.version && r.wf(),
    {
        if config.version == applied_version {
            return None;
        }
        let calls = effect_calls(config);
        assert(calls@.last() == EffectCall::Commit);
        assert(calls@.len() > 0);
        Some(EffectsRun { calls, next: 0, version: config.version })
    }

    /// The call that is due.
    pub fn call(&self) -> (call: EffectCall)
        requires
            self.wf(),
        ensures
            call == self.calls@[self.next as int],
    {
        self.calls[self.next]
    }

    /// Does what the result code of the call that was due leads to: the first
    /// failure ends the run, and the last success applies the version.
    pub fn advance(&mut self, code: HResult) -> (step: EffectsStep)
        requires
            old(self).wf(),
        ensures
            is_advanced(*old(self), code, *final(self), step),
    {
        let name = match self.calls[self.next] {
            EffectCall::SetParameters(_) => "IXAudio2Voice::SetEffectParameters",
            EffectCall::Enable(_) => "IXAudio2Voice effect state",
            EffectCall::Disable(_) => "IXAudio2Voice effect state",
            EffectCall::SetSendGain(_) => "IXAudio2Voice::SetOutputMatrix",
            EffectCall::SetHeadroom => "IXAudio2Voice::SetVolume(effect headroom)",
            EffectCall::Commit => "IXAudio2::CommitChanges(effects)",
        };
        if let Err(error) = check_hr(name, code) {
            return EffectsStep::Failed(error);
        }
        let count: usize = self.calls.len();
        if self.next + 1 == count {
            return EffectsStep::Applied(self.version);
        }
        self.next = self.next + 1;
        EffectsStep::Call
    }
}

/// The output matrix that sends each channel to itself with the given gain: the
/// gain from source channel `s` to target channel `t` stands at
/// `s + channels * t`.
pub fn send_matrix<L: Copy>(channels: u16, gain: L, zero: L) -> (matrix: Vec<L>)
    requires
        channels * channels <= usize::MAX,
    ensures
        matrix@.len() == channels * channels,
        forall|s: int, t: int|
            0 <= s < channels && 0 <= t < channels ==> #[trigger] matrix@[s + channels * t]
                == if s == t {
                gain
            } else {
                zero
            },
{
    let side: usize = channels as usize;
    let mut matrix: Vec<L> = Vec::new();
    let mut t: usize = 0;
    proof {
        assert(side * 0 == 0) by (nonlinear_arith);
    }
    while t < side
        invariant
            side == channels,
            t <= side,
            matrix@.len() == side * t,
            forall|i: int, j: int|
                0 <= i < side && 0 <= j < t ==> #[trigger] matrix@[i + side * j] == if i == j {
                    gain
                } else {
                    zero
                },
        decreases side - t,
    {
        let ghost rows = matrix@;
        let mut s: usize = 0;
        while s < side
            invariant
                side == channels,
                t < side,
                s <= side,
                rows.len() == side * t,
                matrix@.len() == side * t + s,
                forall|k: int| 0 <= k < rows.len() ==> matrix@[k] == rows[k],
                forall|i: int|
                    0 <= i < s ==> #[trigger] matrix@[side * t + i] == if i == t {
                        gain
                    } else {
                        zero
                    },
            decreases side - s,
        {
            if s == t {
                matrix.push(gain);
            } else {
                matrix.push(zero);
            }
            s = s + 1;
        }
        assert(side * (t + 1) == side * t + side) by (nonlinear_arith);
        assert forall|i: int, j: int| 0 <= i < side && 0 <= j < t + 1 implies #[trigger] matrix@[i
            + side * j] == if i == j {
            gain
        } else {
            zero
        } by {
            if j < t {
                assert(0 <= i + side * j < side * t) by (nonlinear_arith)
                    requires
                        0 <= i < side,
                        0 <= j,
                        j + 1 <= t,
                ;
                assert(matrix@[i + side * j] == rows[i + side * j]);
            } else {
                assert(matrix@[side * t + i] == matrix@[i + side * j]);
            }
        }
        t = t + 1;
    }
    matrix
}

/// A line that gives each sample back after as many others as it holds.
#[derive(Debug)]
pub struct DelayLine<L> {
    line: Vec<L>,
    cursor: usize,
}

impl<L> DelayLine<L> {
    /// Whether the cursor is on the line, unless the line is empty.
    pub closed spec fn wf(self) -> bool {
        self.cursor < self.line@.len() || self.line@.len() == 0 && self.cursor == 0
    }

    /// The samples on the line, the one that comes back next first.
    pub closed spec fn view(self) -> Seq<L> {
        self.line@.skip(self.cursor as int) + self.line@.take(self.cursor as int)
    }
}

impl<L: Copy> DelayLine<L> {
    /// A line that delays nothing.
    pub fn none() -> (line: DelayLine<L>)
        ensures
            line.wf(),
            line.view().len() == 0,
    {
        DelayLine { line: Vec::new(), cursor: 0 }
    }

    /// A line that holds silence for `frames` frames, and at least one, of
    /// `channels` samples.
    pub fn silent(frames: usize, channels: usize, silence: L) -> (line: DelayLine<L>)
        requires
            frames * channels <= usize::MAX,
            channels <= usize::MAX,
        ensures
            line.wf(),
            line.view() == Seq::new(
                ((if frames == 0 {
                    1
                } else {
                    frames as int
                }) * channels) as nat,
                |i: int| silence,
            ),
    {
        let held: usize = if frames == 0 {
            1
        } else {
            frames
        };
        assert(held * channels <= usize::MAX) by (nonlinear_arith)
            requires
                held == frames || held == 1,
                frames * channels <= usize::MAX,
                channels <= usize::MAX,
        ;
        assert(held * channels >= 0) by (nonlinear_arith);
        let len: usize = held * channels;
        let mut line: Vec<L> = Vec::new();
        let mut i: usize = 0;
        while i < len
            invariant
                i <= len,
                line@ == Seq::new(i as nat, |k: int| silence),
            decreases len - i,
        {
            line.push(silence);
            i = i + 1;
        }
        let delay = DelayLine { line, cursor: 0 };
        assert(delay.view() =~= line@);
        delay
    }

    /// Whether the line delays nothing.
    pub fn is_empty(&self) -> (empty: bool)
        requires
            self.wf(),
        ensures
            empty == (self.view().len() == 0),
    {
        self.line.len() == 0
    }

    /// The sample that comes back next.
    pub fn delayed(&self) -> (sample: L)
        requires
            self.wf(),
            self.view().len() > 0,
        ensures
            sample == self.view().first(),
    {
        self.line[self.cursor]
    }

    /// Takes the next sample off the line and puts another at its end.
    pub fn exchange(&mut self, sample: L)
        requires
            old(self).wf(),
            old(self).view().len() > 0,
        ensures
            final(self).wf(),
            final(self).view() == old(self).view().skip(1).push(sample),
    {
        let ghost before = self.view();
        let len: usize = self.line.len();
        self.line.set(self.cursor, sample);
        self.cursor = self.cursor + 1;
        if self.cursor == len {
            self.cursor = 0;
        }
        assert(self.view() =~= before.skip(1).push(sample));
    }

    /// Fills the line with silence.
    pub fn reset(&mut self, silence: L)
        requires
            old(self).wf(),
        ensures
            final(self).wf(),
            final(self).view() == Seq::new(old(self).view().len(), |i: int| silence),
    {
        let mut i: usize = 0;
        while i < self.line.len()
            invariant
                i <= self.line@.len(),
                self.line@.len() == old(self).line@.len(),
                forall|k: int| 0 <= k < i ==> self.line@[k] == silence,
            decreases self.line@.len() - i,
        {
            self.line.set(i, silence);
            i = i + 1;
        }
        self.cursor = 0;
        assert(self.view() =~= Seq::new(old(self).view().len(), |i: int| silence));
    }
}

/// What a line holds after samples were exchanged one by one.
pub open spec fn exchanged<L>(line: Seq<L>, samples: Seq<L>) -> Seq<L>
    decreases samples.len(),
{
    if samples.len() == 0 {
        line
    } else {
        exchanged(line, samples.drop_last()).skip(1).push(samples.last())
    }
}

/// A sample comes back after as many exchanges as the line holds samples: after
/// that many, the line holds exactly what was put on it.
pub proof fn law_a_line_delays_by_its_length<L>(line: Seq<L>, samples: Seq<L>)
    requires
        samples.len() <= line.len(),
    ensures
        exchanged(line, samples) == line.skip(samples.len() as int) + samples,
    decreases samples.len(),
{
    if samples.len() == 0 {
        assert(line.skip(0) + samples =~= line);
    } else {
        law_a_line_delays_by_its_length(line, samples.drop_last());
        assert(exchanged(line, samples) =~= line.skip(samples.len() as int) + samples);
    }
}

/// The filters of a renderer: five for each channel, with those of a channel
/// side by side. The result says where the filters of the channel that a
/// sample belongs to start.
pub fn first_filter(sample_index: usize, channels: usize) -> (first: usize)
    requires
        channels > 0,
        channels * 5 <= usize::MAX,
    ensures
        first == sample_index % channels * 5,
        first + 5 <= channels * 5,
{
    sample_index % channels * GAIN_COUNT
}

/// What a renderer has of the effects that are asked for.
#[derive(Debug, Clone, Copy, PartialEq, Eq, Structural)]
pub struct RendererUpdate {
    pub equalizers: bool,
    pub echo_line: bool,
    pub reverb_line: bool,
}

/// What a renderer that has the effects of `applied_version` is to build anew:
/// nothing if it is up to date, and otherwise the filters and the lines of the
/// effects that are on, dropping the others.
pub fn renderer_update<L>(applied_version: u64, config: &EffectsConfig<L>) -> (update: Option<
    RendererUpdate,
>)
    ensures
        update is None <==> config.version == applied_version,
        update matches Some(parts) ==> parts == (RendererUpdate {
            equalizers: config.preset != EffectsPreset::Disabled,
            echo_line: config.echo,
            reverb_line: config.reverb,
        }),
{
    if config.version == applied_version {
        return None;
    }
    Some(
        RendererUpdate {
            equalizers: config.preset != EffectsPreset::Disabled,
            echo_line: config.echo,
            reverb_line: config.reverb,
        },
    )
}

/// The presets have the numbers from nought to four, in the order off, bass,
/// voice, warm and free.
pub proof fn law_presets_have_their_numbers(preset: EffectsPreset, other: EffectsPreset)
    ensures
        preset.raw() <= 4,
        preset.raw() == other.raw() ==> preset == other,
        preset.raw() == 0 <==> preset is Disabled,
        preset.raw() == 1 <==> preset is BassBoost,
        preset.raw() == 2 <==> preset is VocalBoost,
        preset.raw() == 3 <==> preset is Warm,
        preset.raw() == 4 <==> preset is Equalizer,
{
}

/// The curves of the presets. The bass and the warm preset fall from the low
/// frequencies to the high ones, and the first is never below the second. The
/// vocal preset is highest in the middle. The others are flat.
pub proof fn law_curves_of_the_presets(low: u32, high: u32)
    requires
        low <= high,
    ensures
        gain_at(EffectsPreset::BassBoost, low) >= gain_at(EffectsPreset::BassBoost, high),
        gain_at(EffectsPreset::Warm, low) >= gain_at(EffectsPreset::Warm, high),
        gain_at(EffectsPreset::BassBoost, low) >= gain_at(EffectsPreset::Warm, low),
        gain_at(EffectsPreset::VocalBoost, low) <= 5,
        gain_at(EffectsPreset::VocalBoost, low) == 5 <==> 500 < low <= 4_000,
        high <= 4_000 ==> gain_at(EffectsPreset::VocalBoost, low) <= gain_at(
            EffectsPreset::VocalBoost,
            high,
        ),
        low > 500 ==> gain_at(EffectsPreset::VocalBoost, low) >= gain_at(
            EffectsPreset::VocalBoost,
            high,
        ),
        gain_at(EffectsPreset::Disabled, low) == 0,
        gain_at(EffectsPreset::Equalizer, low) == 0,
        gain_at(EffectsPreset::BassBoost, low) == 8 <==> low <= 125,
        gain_at(EffectsPreset::BassBoost, low) == 5 <==> 125 < low <= 500,
        gain_at(EffectsPreset::BassBoost, low) == 2 <==> 500 < low <= 2_000,
        gain_at(EffectsPreset::BassBoost, low) == -1 <==> 2_000 < low <= 6_000,
        gain_at(EffectsPreset::BassBoost, low) == -2 <==> low > 6_000,
        gain_at(EffectsPreset::Warm, low) == 4 <==> low <= 125,
        gain_at(EffectsPreset::Warm, low) == 3 <==> 125 < low <= 500,
        gain_at(EffectsPreset::Warm, low) == 1 <==> 500 < low <= 2_000,
        gain_at(EffectsPreset::Warm, low) == -1 <==> 2_000 < low <= 6_000,
        gain_at(EffectsPreset::Warm, low) == -2 <==> low > 6_000,
        gain_at(EffectsPreset::VocalBoost, low) == -3 <==> low <= 125,
        gain_at(EffectsPreset::VocalBoost, low) == -1 <==> 125 < low <= 500,
        gain_at(EffectsPreset::VocalBoost, low) == 4 <==> 4_000 < low <= 8_000,
        gain_at(EffectsPreset::VocalBoost, low) == 2 <==> low > 8_000,
{
}

/// The five filters of the bass and the warm preset have the gains of the five
/// ranges of their curves; those of the vocal preset rise to the fourth. No
/// preset but the free one lacks filters, and only the one that is off is flat.
pub proof fn law_filters_follow_the_curves(preset: EffectsPreset)
    ensures
        filter_gains(preset) is None <==> preset is Equalizer,
        filter_gains(preset) matches Some(gains) ==> {
            &&& gains.len() == 5
            &&& preset is BassBoost || preset is Warm ==> {
                &&& gains[0] == gain_at(preset, 125)
                &&& gains[1] == gain_at(preset, 500)
                &&& gains[2] == gain_at(preset, 2_000)
                &&& gains[3] == gain_at(preset, 6_000)
                &&& gains[4] == gain_at(preset, 6_001)
            }
            &&& preset is VocalBoost ==> {
                &&& gains[0] == gain_at(preset, 125)
                &&& gains[1] == gain_at(preset, 500)
                &&& gains[2] == 3
                &&& gains[3] == gain_at(preset, 4_000)
                &&& gains[4] == gain_at(preset, 8_001)
                &&& gains[0] < gains[1] < gains[2] < gains[3]
            }
            &&& preset is Disabled <==> gains[0] == 0 && gains[1] == 0 && gains[2] == 0
                && gains[3] == 0 && gains[4] == 0
        },
{
}

/// Samples pass through unchanged exactly where no effect is on.
pub proof fn law_nothing_on_passes_through<L>(config: EffectsConfig<L>)
    ensures
        config.passes_through() <==> !(config.echo || config.reverb || config.limiter
            || !(config.preset is Disabled)),
{
}

/// Whether an effect is asked for.
pub open spec fn is_on<L>(config: EffectsConfig<L>, effect: VoiceEffect) -> bool {
    match effect {
        VoiceEffect::Equalizer => !(config.preset is Disabled),
        VoiceEffect::Echo => config.echo,
        VoiceEffect::Reverb => config.reverb,
        VoiceEffect::Limiter => config.limiter,
    }
}

/// A call is in one of two lists of calls exactly if it is in both together.
proof fn lemma_contains_add(a: Seq<EffectCall>, b: Seq<EffectCall>, call: EffectCall)
    ensures
        (a + b).contains(call) <==> a.contains(call) || b.contains(call),
{
    let both = a + b;
    if a.contains(call) {
        let k = choose|k: int| 0 <= k < a.len() && a[k] == call;
        assert(both[k] == call);
    }
    if b.contains(call) {
        let k = choose|k: int| 0 <= k < b.len() && b[k] == call;
        assert(both[a.len() + k] == call);
    }
    if both.contains(call) {
        let k = choose|k: int| 0 <= k < both.len() && both[k] == call;
        if k < a.len() {
            assert(a[k] == call);
        } else {
            assert(b[k - a.len()] == call);
        }
    }
}

/// Which calls switch an effect.
proof fn lemma_switch(effect: VoiceEffect, enabled: bool, call: EffectCall)
    ensures
        switch_calls(effect, enabled).contains(call) <==> if enabled {
            call == EffectCall::SetParameters(effect) || call == EffectCall::Enable(effect)
        } else {
            call == EffectCall::Disable(effect)
        },
{
    let calls = switch_calls(effect, enabled);
    assert(calls.contains(calls[0]));
    if enabled {
        assert(calls.contains(calls[1]));
    }
}

/// Which calls put effects into a voice.
proof fn lemma_calls_for<L>(config: EffectsConfig<L>, call: EffectCall)
    ensures
        calls_for(config).contains(call) <==> match call {
            EffectCall::SetParameters(effect) => is_on(config, effect),
            EffectCall::Enable(effect) => is_on(config, effect),
            EffectCall::Disable(effect) => !is_on(config, effect),
            _ => true,
        },
{
    let a = switch_calls(VoiceEffect::Equalizer, config.preset != EffectsPreset::Disabled);
    let b = switch_calls(VoiceEffect::Echo, config.echo);
    let c = switch_calls(VoiceEffect::Reverb, config.reverb);
    let d = seq![
        EffectCall::SetSendGain(SendTarget::Mastering),
        EffectCall::SetSendGain(SendTarget::Reverb),
    ];
    let e = switch_calls(VoiceEffect::Limiter, config.limiter);
    let f = seq![EffectCall::SetHeadroom, EffectCall::Commit];
    lemma_switch(VoiceEffect::Equalizer, config.preset != EffectsPreset::Disabled, call);
    lemma_switch(VoiceEffect::Echo, config.echo, call);
    lemma_switch(VoiceEffect::Reverb, config.reverb, call);
    lemma_switch(VoiceEffect::Limiter, config.limiter, call);
    assert(d.contains(d[0]) && d.contains(d[1]));
    assert(f.contains(f[0]) && f.contains(f[1]));
    lemma_contains_add(a, b, call);
    lemma_contains_add(a + b, c, call);
    lemma_contains_add(a + b + c, d, call);
    lemma_contains_add(a + b + c + d, e, call);
    lemma_contains_add(a + b + c + d + e, f, call);
}

/// The calls that put effects into a voice switch on what is asked for and switch
/// off the rest. Both sends and the headroom are always set, and the last call
/// puts all of it in force.
pub proof fn law_calls_put_the_effects_in_force<L>(config: EffectsConfig<L>, effect: VoiceEffect)
    ensures
        ({
            let calls = calls_for(config);
            &&& is_on(config, effect) <==> calls.contains(EffectCall::Enable(effect))
            &&& is_on(config, effect) <==> calls.contains(EffectCall::SetParameters(effect))
            &&& !is_on(config, effect) <==> calls.contains(EffectCall::Disable(effect))
            &&& calls.contains(EffectCall::SetSendGain(SendTarget::Mastering))
            &&& calls.contains(EffectCall::SetSendGain(SendTarget::Reverb))
            &&& calls.contains(EffectCall::SetHeadroom)
            &&& calls.last() == EffectCall::Commit
        }),
{
    lemma_calls_for(config, EffectCall::Enable(effect));
    lemma_calls_for(config, EffectCall::SetParameters(effect));
    lemma_calls_for(config, EffectCall::Disable(effect));
    lemma_calls_for(config, EffectCall::SetSendGain(SendTarget::Mastering));
    lemma_calls_for(config, EffectCall::SetSendGain(SendTarget::Reverb));
    lemma_calls_for(config, EffectCall::SetHeadroom);
}

/// An effect has its parameters before it is switched on: the call for the first
/// stands right before the call for the second.
pub proof fn law_parameters_come_before_an_effect(effect: VoiceEffect)
    ensures
        switch_calls(effect, true).len() == 2,
        switch_calls(effect, true)[0] == EffectCall::SetParameters(effect),
        switch_calls(effect, true)[1] == EffectCall::Enable(effect),
        switch_calls(effect, false) == seq![EffectCall::Disable(effect)],
{
}

/// A call that fails is reported by the name of what it calls.
pub proof fn law_effect_calls_have_their_names(call: EffectCall)
    ensures
        call is SetParameters ==> effect_call_name(call) == "IXAudio2Voice::SetEffectParameters"@,
        call is Enable || call is Disable ==> effect_call_name(call)
            == "IXAudio2Voice effect state"@,
        call is SetSendGain ==> effect_call_name(call) == "IXAudio2Voice::SetOutputMatrix"@,
        call is SetHeadroom ==> effect_call_name(call)
            == "IXAudio2Voice::SetVolume(effect headroom)"@,
        call is Commit ==> effect_call_name(call) == "IXAudio2::CommitChanges(effects)"@,
{
}

/// Whether result code number `i` leads from one of the runs to the next.
pub open spec fn is_effects_step(
    runs: Seq<EffectsRun>,
    codes: Seq<HResult>,
    steps: Seq<EffectsStep>,
    i: int,
) -> bool {
    &&& is_advanced(runs[i], codes[i], runs[i + 1], steps[i])
    &&& i + 1 < codes.len() ==> steps[i] is Call
}

/// The effects of a version are in a voice only once every call for them was made
/// and succeeded, from the first to the last: a run ends in that version after as
/// many successes as it has calls, and call number `i` was the one that was due
/// then.
pub proof fn law_effects_are_applied_by_every_call(
    runs: Seq<EffectsRun>,
    codes: Seq<HResult>,
    steps: Seq<EffectsStep>,
    version: u64,
)
    requires
        codes.len() > 0,
        runs.len() == codes.len() + 1,
        steps.len() == codes.len(),
        runs[0].next == 0,
        runs[0].wf(),
        forall|i: int| 0 <= i < codes.len() ==> #[trigger] is_effects_step(runs, codes, steps, i),
        steps.last() == EffectsStep::Applied(version),
    ensures
        version == runs[0].version,
        codes.len() == runs[0].calls@.len(),
        forall|i: int| 0 <= i < codes.len() ==> #[trigger] codes[i] >= 0,
        forall|i: int|
            0 <= i < codes.len() ==> (#[trigger] runs[i]).next == i && runs[i].calls
                == runs[0].calls,
{
    assert forall|i: int| 0 <= i < codes.len() implies (#[trigger] runs[i]).next == i
        && runs[i].calls == runs[0].calls && runs[i].version == runs[0].version by {
        lemma_calls_are_counted(runs, codes, steps, i);
    }
    let last = codes.len() - 1;
    assert(is_effects_step(runs, codes, steps, last));
    lemma_calls_are_counted(runs, codes, steps, last);
    assert forall|i: int| 0 <= i < codes.len() implies #[trigger] codes[i] >= 0 by {
        assert(is_effects_step(runs, codes, steps, i));
    }
}

proof fn lemma_calls_are_counted(
    runs: Seq<EffectsRun>,
    codes: Seq<HResult>,
    steps: Seq<EffectsStep>,
    n: int,
)
    requires
        runs.len() == codes.len() + 1,
        steps.len() == codes.len(),
        runs[0].next == 0,
        forall|i: int| 0 <= i < codes.len() ==> #[trigger] is_effects_step(runs, codes, steps, i),
        0 <= n < codes.len(),
    ensures
        runs[n].next == n,
        runs[n].calls == runs[0].calls,
        runs[n].version == runs[0].version,
    decreases n,
{
    if n > 0 {
        assert(is_effects_step(runs, codes, steps, n - 1));
        lemma_calls_are_counted(runs, codes, steps, n - 1);
    }
}

} // verus!
