//! The audio that an XAudio2 source voice plays from: samples wait until they
//! fill a chunk, chunks are submitted to the voice while its queue is short, and
//! are kept until the voice has played them.
use crate::sink::{SinkError, SinkErrorKind};
use crate::windows_native::{check_hr, HResult};
use crate::xaudio2::{MAX_QUEUE_MILLISECONDS, PRE_ROLL_MILLISECONDS, SUBMISSION_CHUNK_MILLISECONDS};
use std::collections::VecDeque;
use vstd::prelude::*;

verus! {

/// How many pauses of a millisecond a wait for the voice has before it fails.
pub const MAX_SPINS: u32 = 30_000;

/// What a run of calls on an open sink is for.
#[derive(Debug, Clone, Copy, PartialEq, Eq, Structural)]
pub enum XAudio2Goal {
    Start,
    Write,
    Stop,
    Flush,
}

/// The call that is due in a run, and what it is for.
#[derive(Debug, Clone, Copy, PartialEq, Eq, Structural)]
pub enum XAudio2Stage {
    /// Start the voice because the sink starts.
    StartFirst,
    /// Apply the effects if they changed.
    ApplyEffects,
    /// Ask how many buffers are queued, before the samples of a packet enter.
    FirstState,
    /// Ask how many buffers are queued, while a chunk waits for room.
    CapacityState,
    /// Pause while a chunk waits for room.
    CapacitySleep,
    /// Submit the chunk.
    Submit,
    /// Start the voice because enough audio is queued.
    StartAfterSubmit,
    /// Start the voice because no more audio comes.
    StartForced,
    /// Ask how many buffers are queued, until the voice has played all.
    DrainState,
    /// Pause while the voice plays.
    DrainSleep,
    /// Stop the voice.
    StopVoice,
    /// Throw away what is queued.
    FlushBuffers,
}

/// Where a run stands after a call.
#[derive(Debug)]
pub enum XAudio2Step {
    /// The call that the run names is due.
    Call,
    Done,
    Failed(SinkError),
}

/// What came of a call: its result code, the number of queued buffers, and the
/// error of an attempt to apply the effects.
#[derive(Debug)]
pub struct XAudio2Reply {
    pub code: HResult,
    pub queued: u32,
    pub effects: Option<SinkError>,
}

/// The sizes that rule a queue, in frames.
pub struct QueueSizes {
    pub channels: nat,
    pub pre_roll: nat,
    pub maximum: nat,
    pub chunk: nat,
}

/// A sink and its run, without the way in which they are stored.
#[verifier::ext_equal]
pub struct QueueState<T> {
    pub queue: Seq<Seq<T>>,
    pub pending: Seq<T>,
    pub running: bool,
    pub voice_started: bool,
    pub underruns: u64,
    pub underrun_reported: bool,
    pub stage: XAudio2Stage,
    pub chunk: Seq<T>,
    pub incoming: Seq<T>,
    pub spins: nat,
}

/// What a step of a run comes to.
#[verifier::ext_equal]
pub enum Outcome {
    Call,
    Done,
    Failed(SinkErrorKind, Seq<char>),
}

/// The outcome that a step reports.
pub open spec fn outcome_of(step: XAudio2Step) -> Outcome {
    match step {
        XAudio2Step::Call => Outcome::Call,
        XAudio2Step::Done => Outcome::Done,
        XAudio2Step::Failed(error) => Outcome::Failed(error.kind(), error.text()),
    }
}

/// The frames in a queue.
pub open spec fn queue_frames<T>(queue: Seq<Seq<T>>, channels: nat) -> nat
    decreases queue.len(),
{
    if queue.len() == 0 {
        0
    } else {
        queue_frames(queue.drop_last(), channels) + queue.last().len() / channels
    }
}

/// The samples in a queue, in order.
pub open spec fn joined<T>(queue: Seq<Seq<T>>) -> Seq<T>
    decreases queue.len(),
{
    if queue.len() == 0 {
        Seq::empty()
    } else {
        joined(queue.drop_last()) + queue.last()
    }
}

/// The buffers at the front of a queue that the voice is done with while it has
/// `queued` of them left.
pub open spec fn finished<T>(queue: Seq<Seq<T>>, queued: nat) -> nat {
    if queue.len() > queued {
        (queue.len() - queued) as nat
    } else {
        0
    }
}

/// Whether the voice is to be started: the sink runs, audio is queued, and it is
/// enough or all that comes.
pub open spec fn is_ready<T>(sizes: QueueSizes, x: QueueState<T>, force: bool) -> bool {
    &&& !x.voice_started
    &&& x.running
    &&& queue_frames(x.queue, sizes.channels) > 0
    &&& force || queue_frames(x.queue, sizes.channels) >= sizes.pre_roll
}

/// Drops the buffers that the voice is done with.
pub open spec fn reaped<T>(x: QueueState<T>, queued: nat) -> QueueState<T> {
    QueueState { queue: x.queue.skip(finished(x.queue, queued) as int), ..x }
}

/// Takes the next full chunk of a packet, if there is one.
pub open spec fn next_chunk<T>(sizes: QueueSizes, x: QueueState<T>) -> (QueueState<T>, Outcome) {
    let samples = sizes.chunk * sizes.channels;
    if x.pending.len() >= samples {
        (
            QueueState {
                chunk: x.pending.take(samples as int),
                pending: x.pending.skip(samples as int),
                stage: XAudio2Stage::CapacityState,
                spins: 0,
                ..x
            },
            Outcome::Call,
        )
    } else {
        (x, Outcome::Done)
    }
}

/// Empties the queue after the voice has played it, and stops the voice if it
/// was started.
pub open spec fn drained<T>(x: QueueState<T>) -> (QueueState<T>, Outcome) {
    let empty = QueueState { queue: Seq::empty(), pending: Seq::empty(), ..x };
    if x.voice_started {
        (QueueState { stage: XAudio2Stage::StopVoice, ..empty }, Outcome::Call)
    } else {
        (QueueState { running: false, ..empty }, Outcome::Done)
    }
}

/// Waits until the voice, if it was started, has played everything.
pub open spec fn drain<T>(x: QueueState<T>) -> (QueueState<T>, Outcome) {
    if x.voice_started {
        (QueueState { stage: XAudio2Stage::DrainState, spins: 0, ..x }, Outcome::Call)
    } else {
        drained(x)
    }
}

/// Starts the voice for what is queued, however little, and then drains it.
pub open spec fn finish_up<T>(sizes: QueueSizes, x: QueueState<T>) -> (QueueState<T>, Outcome) {
    if is_ready(sizes, x, true) {
        (QueueState { stage: XAudio2Stage::StartForced, ..x }, Outcome::Call)
    } else {
        drain(x)
    }
}

/// Goes on after a chunk was submitted.
pub open spec fn after_submit<T>(sizes: QueueSizes, goal: XAudio2Goal, x: QueueState<T>) -> (
    QueueState<T>,
    Outcome,
) {
    if goal == XAudio2Goal::Stop {
        finish_up(sizes, x)
    } else {
        next_chunk(sizes, x)
    }
}

/// The samples of a packet enter. An empty queue under a started voice counts as
/// an underrun once, until a chunk is submitted.
pub open spec fn entered<T>(x: QueueState<T>) -> QueueState<T> {
    let under = x.voice_started && x.queue.len() == 0 && !x.underrun_reported;
    QueueState {
        underruns: if under {
            if x.underruns == u64::MAX {
                0
            } else {
                (x.underruns + 1) as u64
            }
        } else {
            x.underruns
        },
        underrun_reported: x.underrun_reported || under,
        pending: x.pending + x.incoming,
        incoming: Seq::empty(),
        ..x
    }
}

/// The name by which a failing call is reported.
pub open spec fn call_name(stage: XAudio2Stage) -> Seq<char> {
    match stage {
        XAudio2Stage::StartFirst => "IXAudio2SourceVoice::Start"@,
        XAudio2Stage::StartAfterSubmit => "IXAudio2SourceVoice::Start"@,
        XAudio2Stage::StartForced => "IXAudio2SourceVoice::Start"@,
        XAudio2Stage::Submit => "IXAudio2SourceVoice::SubmitSourceBuffer"@,
        XAudio2Stage::StopVoice => "IXAudio2SourceVoice::Stop"@,
        XAudio2Stage::FlushBuffers => "IXAudio2SourceVoice::FlushSourceBuffers"@,
        _ => Seq::empty(),
    }
}

/// Whether a stage makes a call that has a result code.
pub open spec fn has_code(stage: XAudio2Stage) -> bool {
    ||| stage == XAudio2Stage::StartFirst
    ||| stage == XAudio2Stage::StartAfterSubmit
    ||| stage == XAudio2Stage::StartForced
    ||| stage == XAudio2Stage::Submit
    ||| stage == XAudio2Stage::StopVoice
    ||| stage == XAudio2Stage::FlushBuffers
}

/// What the reply to the call that was due leads to.
pub open spec fn step_of<T>(
    sizes: QueueSizes,
    goal: XAudio2Goal,
    x: QueueState<T>,
    reply: XAudio2Reply,
) -> (QueueState<T>, Outcome) {
    if has_code(x.stage) && reply.code < 0 {
        (
            x,
            Outcome::Failed(
                SinkErrorKind::NotConnected,
                crate::windows_native::failure_text(call_name(x.stage), reply.code),
            ),
        )
    } else {
        match x.stage {
            XAudio2Stage::StartFirst => {
                let started = QueueState { voice_started: true, ..x };
                if goal == XAudio2Goal::Write {
                    (QueueState { stage: XAudio2Stage::ApplyEffects, ..started }, Outcome::Call)
                } else {
                    (started, Outcome::Done)
                }
            },
            XAudio2Stage::ApplyEffects => match reply.effects {
                Some(error) => (x, Outcome::Failed(error.kind(), error.text())),
                None => (QueueState { stage: XAudio2Stage::FirstState, ..x }, Outcome::Call),
            },
            XAudio2Stage::FirstState => next_chunk(
                sizes,
                entered(reaped(x, reply.queued as nat)),
            ),
            XAudio2Stage::CapacityState => {
                let y = reaped(x, reply.queued as nat);
                let stage = if y.queue.len() == 0 || queue_frames(y.queue, sizes.channels)
                    + y.chunk.len() / sizes.channels <= sizes.maximum {
                    XAudio2Stage::Submit
                } else {
                    XAudio2Stage::CapacitySleep
                };
                (QueueState { stage, ..y }, Outcome::Call)
            },
            XAudio2Stage::CapacitySleep => if x.spins + 1 >= MAX_SPINS {
                (
                    x,
                    Outcome::Failed(
                        SinkErrorKind::OnWrite,
                        "XAudio2 queue did not make room for PCM within 30 seconds"@,
                    ),
                )
            } else {
                (
                    QueueState { stage: XAudio2Stage::CapacityState, spins: x.spins + 1, ..x },
                    Outcome::Call,
                )
            },
            XAudio2Stage::Submit => {
                let y = QueueState {
                    queue: x.queue.push(x.chunk),
                    chunk: Seq::empty(),
                    underrun_reported: false,
                    stage: XAudio2Stage::StartAfterSubmit,
                    ..x
                };
                if is_ready(sizes, y, false) {
                    (y, Outcome::Call)
                } else {
                    after_submit(sizes, goal, y)
                }
            },
            XAudio2Stage::StartAfterSubmit => after_submit(
                sizes,
                goal,
                QueueState { voice_started: true, ..x },
            ),
            XAudio2Stage::StartForced => drain(QueueState { voice_started: true, ..x }),
            XAudio2Stage::DrainState => if reply.queued == 0 {
                drained(x)
            } else {
                (QueueState { stage: XAudio2Stage::DrainSleep, ..x }, Outcome::Call)
            },
            XAudio2Stage::DrainSleep => if x.spins + 1 >= MAX_SPINS {
                (
                    x,
                    Outcome::Failed(
                        SinkErrorKind::OnWrite,
                        "XAudio2 did not release submitted PCM within 30 seconds"@,
                    ),
                )
            } else {
                (
                    QueueState { stage: XAudio2Stage::DrainState, spins: x.spins + 1, ..x },
                    Outcome::Call,
                )
            },
            XAudio2Stage::StopVoice => {
                let stopped = QueueState { voice_started: false, ..x };
                if goal == XAudio2Goal::Stop {
                    (QueueState { running: false, ..stopped }, Outcome::Done)
                } else {
                    (QueueState { stage: XAudio2Stage::FlushBuffers, ..stopped }, Outcome::Call)
                }
            },
            XAudio2Stage::FlushBuffers => (
                QueueState {
                    queue: Seq::empty(),
                    pending: Seq::empty(),
                    underrun_reported: false,
                    ..x
                },
                Outcome::Done,
            ),
        }
    }
}

/// The audio of a sink and how far the voice has come with it.
#[derive(Debug)]
pub struct XAudio2Sink<T> {
    pub queued_buffers: VecDeque<Vec<T>>,
    pub pending_samples: Vec<T>,
    pub queued_frames: usize,
    pub pre_roll_frames: usize,
    pub maximum_queue_frames: usize,
    pub submission_chunk_frames: usize,
    pub underruns: u64,
    pub underrun_reported: bool,
    pub channels: u16,
    pub running: bool,
    pub voice_started: bool,
}

/// A run of calls that is under way.
#[derive(Debug)]
pub struct XAudio2Run<T> {
    pub goal: XAudio2Goal,
    pub stage: XAudio2Stage,
    /// The samples that are to be submitted next.
    pub chunk: Vec<T>,
    /// The samples of a packet that have not entered yet.
    pub incoming: Vec<T>,
    pub spins: u32,
}

/// The samples of the buffers in a queue.
pub open spec fn contents<T>(buffers: Seq<Vec<T>>) -> Seq<Seq<T>> {
    Seq::new(buffers.len(), |i: int| buffers[i]@)
}

/// The frames that the given time takes.
pub open spec fn frames_in(sample_rate: u32, milliseconds: u32) -> int {
    sample_rate * milliseconds / 1_000
}

impl<T> XAudio2Sink<T> {
    /// The sizes that rule the queue.
    pub open spec fn sizes(self) -> QueueSizes {
        QueueSizes {
            channels: self.channels as nat,
            pre_roll: self.pre_roll_frames as nat,
            maximum: self.maximum_queue_frames as nat,
            chunk: self.submission_chunk_frames as nat,
        }
    }

    /// Whether the sizes fit and the counted frames are those in the queue.
    pub open spec fn wf(self) -> bool {
        &&& self.channels > 0
        &&& self.submission_chunk_frames > 0
        &&& self.submission_chunk_frames * self.channels <= usize::MAX
        &&& self.maximum_queue_frames < usize::MAX
        &&& self.queued_frames == queue_frames(
            contents(self.queued_buffers@),
            self.channels as nat,
        )
    }

    /// The sink with a run.
    pub open spec fn with_run(self, run: XAudio2Run<T>) -> QueueState<T> {
        QueueState {
            queue: contents(self.queued_buffers@),
            pending: self.pending_samples@,
            running: self.running,
            voice_started: self.voice_started,
            underruns: self.underruns,
            underrun_reported: self.underrun_reported,
            stage: run.stage,
            chunk: run.chunk@,
            incoming: run.incoming@,
            spins: run.spins as nat,
        }
    }

    /// The sink before a run that brings `incoming`.
    pub open spec fn at_rest(self, incoming: Seq<T>) -> QueueState<T> {
        QueueState {
            queue: contents(self.queued_buffers@),
            pending: self.pending_samples@,
            running: self.running,
            voice_started: self.voice_started,
            underruns: self.underruns,
            underrun_reported: self.underrun_reported,
            stage: XAudio2Stage::ApplyEffects,
            chunk: Seq::empty(),
            incoming,
            spins: 0,
        }
    }
}

/// Whether a run may stand where it stands: a chunk is submitted only where
/// there is room for it.
pub open spec fn run_fits<T>(sizes: QueueSizes, x: QueueState<T>) -> bool {
    &&& x.spins < MAX_SPINS
    &&& x.stage == XAudio2Stage::Submit ==> x.queue.len() == 0 || queue_frames(
        x.queue,
        sizes.channels,
    ) + x.chunk.len() / sizes.channels <= sizes.maximum
}

/// Starts a sink: the voice starts at once if enough audio waits.
pub open spec fn started<T>(sizes: QueueSizes, x: QueueState<T>) -> (QueueState<T>, Outcome) {
    let y = QueueState { running: true, ..x };
    if !x.running && is_ready(sizes, y, false) {
        (QueueState { stage: XAudio2Stage::StartFirst, ..y }, Outcome::Call)
    } else {
        (y, Outcome::Done)
    }
}

/// Takes a packet of samples.
pub open spec fn written<T>(sizes: QueueSizes, x: QueueState<T>) -> (QueueState<T>, Outcome) {
    if x.incoming.len() % sizes.channels != 0 {
        (
            x,
            Outcome::Failed(
                SinkErrorKind::InvalidParams,
                "XAudio2 packet was not aligned to a complete audio frame"@,
            ),
        )
    } else {
        (started(sizes, x).0, Outcome::Call)
    }
}

/// Stops a sink once the voice has played everything.
pub open spec fn stopped<T>(sizes: QueueSizes, x: QueueState<T>) -> (QueueState<T>, Outcome) {
    if !x.running {
        (x, Outcome::Done)
    } else if x.pending.len() > 0 {
        (
            QueueState {
                chunk: x.pending,
                pending: Seq::empty(),
                stage: XAudio2Stage::CapacityState,
                ..x
            },
            Outcome::Call,
        )
    } else {
        finish_up(sizes, x)
    }
}

/// Throws away what waits.
pub open spec fn flushed<T>(x: QueueState<T>) -> (QueueState<T>, Outcome) {
    let stage = if x.voice_started {
        XAudio2Stage::StopVoice
    } else {
        XAudio2Stage::FlushBuffers
    };
    (QueueState { stage, ..x }, Outcome::Call)
}

/// The frames of a queue are those of its first buffer and of the others.
proof fn lemma_first_frames<T>(queue: Seq<Seq<T>>, channels: nat)
    requires
        channels > 0,
        queue.len() > 0,
    ensures
        queue_frames(queue, channels) == queue.first().len() / channels + queue_frames(
            queue.skip(1),
            channels,
        ),
    decreases queue.len(),
{
    vstd::arithmetic::div_mod::lemma_div_pos_is_pos(queue.first().len() as int, channels as int);
    vstd::arithmetic::div_mod::lemma_div_pos_is_pos(queue.last().len() as int, channels as int);
    if queue.len() == 1 {
        assert(queue.drop_last() =~= Seq::empty());
        assert(queue.skip(1) =~= Seq::empty());
        assert(queue_frames(queue.drop_last(), channels) == 0);
    } else {
        lemma_first_frames(queue.drop_last(), channels);
        assert(queue.drop_last().skip(1) =~= queue.skip(1).drop_last());
        assert(queue_frames(queue.skip(1), channels) == queue_frames(
            queue.skip(1).drop_last(),
            channels,
        ) + queue.last().len() / channels);
    }
}

impl<T> XAudio2Sink<T> {
    /// A sink for audio of the given form that holds none yet.
    pub fn new(sample_rate: u32, channels: u16) -> (sink: XAudio2Sink<T>)
        requires
            channels > 0,
            sample_rate * MAX_QUEUE_MILLISECONDS <= usize::MAX,
            (frames_in(sample_rate, SUBMISSION_CHUNK_MILLISECONDS) + 1) * channels <= usize::MAX,
        ensures
            sink.wf(),
            sink.queued_buffers@.len() == 0,
            sink.pending_samples@.len() == 0,
            sink.underruns == 0,
            !sink.underrun_reported,
            !sink.running,
            !sink.voice_started,
            sink.channels == channels,
            sink.pre_roll_frames == frames_in(sample_rate, PRE_ROLL_MILLISECONDS),
            sink.maximum_queue_frames == frames_in(sample_rate, MAX_QUEUE_MILLISECONDS),
            sink.submission_chunk_frames == if frames_in(
                sample_rate,
                SUBMISSION_CHUNK_MILLISECONDS,
            ) == 0 {
                1
            } else {
                frames_in(sample_rate, SUBMISSION_CHUNK_MILLISECONDS)
            },
    {
        assert(sample_rate * PRE_ROLL_MILLISECONDS <= sample_rate * MAX_QUEUE_MILLISECONDS);
        let chunk: usize = sample_rate as usize * SUBMISSION_CHUNK_MILLISECONDS as usize / 1_000;
        let submission_chunk_frames: usize = if chunk == 0 {
            1
        } else {
            chunk
        };
        assert(submission_chunk_frames * channels <= (chunk + 1) * channels) by (nonlinear_arith)
            requires
                submission_chunk_frames <= chunk + 1,
                channels >= 0,
        ;
        XAudio2Sink {
            queued_buffers: VecDeque::new(),
            pending_samples: Vec::new(),
            queued_frames: 0,
            pre_roll_frames: sample_rate as usize * PRE_ROLL_MILLISECONDS as usize / 1_000,
            maximum_queue_frames: sample_rate as usize * MAX_QUEUE_MILLISECONDS as usize / 1_000,
            submission_chunk_frames,
            underruns: 0,
            underrun_reported: false,
            channels,
            running: false,
            voice_started: false,
        }
    }

    /// Whether the voice is to be started.
    fn ready(&self, force: bool) -> (ready: bool)
        requires
            self.wf(),
        ensures
            ready == is_ready(self.sizes(), self.at_rest(Seq::empty()), force),
    {
        !self.voice_started && self.running && self.queued_frames > 0 && (force
            || self.queued_frames >= self.pre_roll_frames)
    }

    /// Drops the buffers that the voice is done with.
    fn reap_completed_buffers(&mut self, queued: u32)
        requires
            old(self).wf(),
        ensures
            final(self).wf(),
            final(self).sizes() == old(self).sizes(),
            forall|run: XAudio2Run<T>| #[trigger]
                final(self).with_run(run) == reaped(old(self).with_run(run), queued as nat),
    {
        let ghost start = *self;
        let ghost queue = contents(self.queued_buffers@);
        assert(queue.skip(0) =~= queue);
        while self.queued_buffers.len() > queued as usize
            invariant
                self.wf(),
                *self == (XAudio2Sink {
                    queued_buffers: self.queued_buffers,
                    queued_frames: self.queued_frames,
                    ..start
                }),
                queue == contents(start.queued_buffers@),
                self.queued_buffers@.len() <= queue.len(),
                self.queued_buffers@.len() == queue.len() || self.queued_buffers@.len() >= queued,
                contents(self.queued_buffers@) == queue.skip(
                    queue.len() - self.queued_buffers@.len(),
                ),
            decreases self.queued_buffers@.len(),
        {
            let ghost before = contents(self.queued_buffers@);
            proof {
                lemma_first_frames(before, self.channels as nat);
            }
            if let Some(buffer) = self.queued_buffers.pop_front() {
                assert(contents(self.queued_buffers@) =~= before.skip(1));
                assert(before.skip(1) =~= queue.skip(queue.len() - self.queued_buffers@.len()));
                let frames: usize = buffer.len() / self.channels as usize;
                assert(frames == before.first().len() / self.channels as nat);
                self.queued_frames = self.queued_frames.saturating_sub(frames);
            }
        }
    }

    /// Takes the next full chunk of a packet, if there is one.
    fn next_chunk(&mut self, run: &mut XAudio2Run<T>) -> (step: XAudio2Step)
        requires
            old(self).wf(),
            run_fits(old(self).sizes(), old(self).with_run(*old(run))),
            old(run).stage != XAudio2Stage::Submit,
        ensures
            final(self).wf(),
            final(self).sizes() == old(self).sizes(),
            run_fits(final(self).sizes(), final(self).with_run(*final(run))),
            final(run).goal == old(run).goal,
            (final(self).with_run(*final(run)), outcome_of(step)) == next_chunk(
                old(self).sizes(),
                old(self).with_run(*old(run)),
            ),
    {
        let samples: usize = self.submission_chunk_frames * self.channels as usize;
        if self.pending_samples.len() >= samples {
            let mut remainder = self.pending_samples.split_off(samples);
            std::mem::swap(&mut remainder, &mut self.pending_samples);
            run.chunk = remainder;
            run.stage = XAudio2Stage::CapacityState;
            run.spins = 0;
            XAudio2Step::Call
        } else {
            XAudio2Step::Done
        }
    }

    /// Empties the queue after the voice has played it.
    fn drained(&mut self, run: &mut XAudio2Run<T>) -> (step: XAudio2Step)
        requires
            old(self).wf(),
            run_fits(old(self).sizes(), old(self).with_run(*old(run))),
            old(run).stage != XAudio2Stage::Submit,
        ensures
            final(self).wf(),
            final(self).sizes() == old(self).sizes(),
            run_fits(final(self).sizes(), final(self).with_run(*final(run))),
            final(run).goal == old(run).goal,
            (final(self).with_run(*final(run)), outcome_of(step)) == drained(
                old(self).with_run(*old(run)),
            ),
    {
        self.queued_buffers.clear();
        self.pending_samples.clear();
        self.queued_frames = 0;
        assert(contents(self.queued_buffers@) =~= Seq::empty());
        if self.voice_started {
            run.stage = XAudio2Stage::StopVoice;
            XAudio2Step::Call
        } else {
            self.running = false;
            XAudio2Step::Done
        }
    }

    /// Waits until the voice, if it was started, has played everything.
    fn drain(&mut self, run: &mut XAudio2Run<T>) -> (step: XAudio2Step)
        requires
            old(self).wf(),
            run_fits(old(self).sizes(), old(self).with_run(*old(run))),
            old(run).stage != XAudio2Stage::Submit,
        ensures
            final(self).wf(),
            final(self).sizes() == old(self).sizes(),
            run_fits(final(self).sizes(), final(self).with_run(*final(run))),
            final(run).goal == old(run).goal,
            (final(self).with_run(*final(run)), outcome_of(step)) == drain(
                old(self).with_run(*old(run)),
            ),
    {
        if self.voice_started {
            run.stage = XAudio2Stage::DrainState;
            run.spins = 0;
            XAudio2Step::Call
        } else {
            self.drained(run)
        }
    }

    /// Starts the voice for what is queued, however little, and then drains it.
    fn finish_up(&mut self, run: &mut XAudio2Run<T>) -> (step: XAudio2Step)
        requires
            old(self).wf(),
            run_fits(old(self).sizes(), old(self).with_run(*old(run))),
            old(run).stage != XAudio2Stage::Submit,
        ensures
            final(self).wf(),
            final(self).sizes() == old(self).sizes(),
            run_fits(final(self).sizes(), final(self).with_run(*final(run))),
            final(run).goal == old(run).goal,
            (final(self).with_run(*final(run)), outcome_of(step)) == finish_up(
                old(self).sizes(),
                old(self).with_run(*old(run)),
            ),
    {
        if self.ready(true) {
            run.stage = XAudio2Stage::StartForced;
            XAudio2Step::Call
        } else {
            self.drain(run)
        }
    }

    /// Goes on after a chunk was submitted.
    fn after_submit(&mut self, run: &mut XAudio2Run<T>) -> (step: XAudio2Step)
        requires
            old(self).wf(),
            run_fits(old(self).sizes(), old(self).with_run(*old(run))),
            old(run).stage != XAudio2Stage::Submit,
        ensures
            final(self).wf(),
            final(self).sizes() == old(self).sizes(),
            run_fits(final(self).sizes(), final(self).with_run(*final(run))),
            final(run).goal == old(run).goal,
            (final(self).with_run(*final(run)), outcome_of(step)) == after_submit(
                old(self).sizes(),
                old(run).goal,
                old(self).with_run(*old(run)),
            ),
    {
        if run.goal == XAudio2Goal::Stop {
            self.finish_up(run)
        } else {
            self.next_chunk(run)
        }
    }

    /// Starts the sink.
    pub fn start(&mut self) -> (outcome: (XAudio2Run<T>, XAudio2Step))
        requires
            old(self).wf(),
        ensures
            final(self).wf(),
            final(self).sizes() == old(self).sizes(),
            run_fits(final(self).sizes(), final(self).with_run(outcome.0)),
            outcome.0.goal == XAudio2Goal::Start,
            (final(self).with_run(outcome.0), outcome_of(outcome.1)) == started(
                old(self).sizes(),
                old(self).at_rest(Seq::empty()),
            ),
    {
        let mut run = XAudio2Run {
            goal: XAudio2Goal::Start,
            stage: XAudio2Stage::ApplyEffects,
            chunk: Vec::new(),
            incoming: Vec::new(),
            spins: 0,
        };
        if self.running {
            return (run, XAudio2Step::Done);
        }
        self.running = true;
        if self.ready(false) {
            run.stage = XAudio2Stage::StartFirst;
            (run, XAudio2Step::Call)
        } else {
            (run, XAudio2Step::Done)
        }
    }

    /// Stops the sink once the voice has played everything.
    pub fn stop(&mut self) -> (outcome: (XAudio2Run<T>, XAudio2Step))
        requires
            old(self).wf(),
        ensures
            final(self).wf(),
            final(self).sizes() == old(self).sizes(),
            run_fits(final(self).sizes(), final(self).with_run(outcome.0)),
            outcome.0.goal == XAudio2Goal::Stop,
            (final(self).with_run(outcome.0), outcome_of(outcome.1)) == stopped(
                old(self).sizes(),
                old(self).at_rest(Seq::empty()),
            ),
    {
        let mut run = XAudio2Run {
            goal: XAudio2Goal::Stop,
            stage: XAudio2Stage::ApplyEffects,
            chunk: Vec::new(),
            incoming: Vec::new(),
            spins: 0,
        };
        if !self.running {
            return (run, XAudio2Step::Done);
        }
        if self.pending_samples.len() > 0 {
            std::mem::swap(&mut run.chunk, &mut self.pending_samples);
            run.stage = XAudio2Stage::CapacityState;
            return (run, XAudio2Step::Call);
        }
        let step = self.finish_up(&mut run);
        (run, step)
    }

    /// Throws away what waits to be played.
    pub fn flush(&mut self) -> (outcome: (XAudio2Run<T>, XAudio2Step))
        requires
            old(self).wf(),
        ensures
            *final(self) == *old(self),
            run_fits(final(self).sizes(), final(self).with_run(outcome.0)),
            outcome.0.goal == XAudio2Goal::Flush,
            (final(self).with_run(outcome.0), outcome_of(outcome.1)) == flushed(
                old(self).at_rest(Seq::empty()),
            ),
    {
        let stage = if self.voice_started {
            XAudio2Stage::StopVoice
        } else {
            XAudio2Stage::FlushBuffers
        };
        let run = XAudio2Run {
            goal: XAudio2Goal::Flush,
            stage,
            chunk: Vec::new(),
            incoming: Vec::new(),
            spins: 0,
        };
        (run, XAudio2Step::Call)
    }

    /// Takes a packet of samples, and starts the sink if it does not run.
    pub fn write_f32(&mut self, samples: Vec<T>) -> (outcome: (XAudio2Run<T>, XAudio2Step))
        requires
            old(self).wf(),
        ensures
            final(self).wf(),
            final(self).sizes() == old(self).sizes(),
            run_fits(final(self).sizes(), final(self).with_run(outcome.0)),
            outcome.0.goal == XAudio2Goal::Write,
            (final(self).with_run(outcome.0), outcome_of(outcome.1)) == written(
                old(self).sizes(),
                old(self).at_rest(samples@),
            ),
    {
        let aligned = samples.len() % self.channels as usize == 0;
        let mut run = XAudio2Run {
            goal: XAudio2Goal::Write,
            stage: XAudio2Stage::ApplyEffects,
            chunk: Vec::new(),
            incoming: samples,
            spins: 0,
        };
        if !aligned {
            let error = SinkError::invalid_params(
                "XAudio2 packet was not aligned to a complete audio frame",
            );
            return (run, XAudio2Step::Failed(error));
        }
        if !self.running {
            self.running = true;
            if self.ready(false) {
                run.stage = XAudio2Stage::StartFirst;
            }
        }
        (run, XAudio2Step::Call)
    }

    /// Does what the reply to the call that was due leads to.
    pub fn advance(&mut self, run: &mut XAudio2Run<T>, reply: XAudio2Reply) -> (step: XAudio2Step)
        requires
            old(self).wf(),
            run_fits(old(self).sizes(), old(self).with_run(*old(run))),
        ensures
            final(self).wf(),
            final(self).sizes() == old(self).sizes(),
            run_fits(final(self).sizes(), final(self).with_run(*final(run))),
            final(run).goal == old(run).goal,
            (final(self).with_run(*final(run)), outcome_of(step)) == step_of(
                old(self).sizes(),
                old(run).goal,
                old(self).with_run(*old(run)),
                reply,
            ),
    {
        match run.stage {
            XAudio2Stage::StartFirst => {
                if let Err(error) = check_hr("IXAudio2SourceVoice::Start", reply.code) {
                    return XAudio2Step::Failed(error);
                }
                self.voice_started = true;
                if run.goal == XAudio2Goal::Write {
                    run.stage = XAudio2Stage::ApplyEffects;
                    XAudio2Step::Call
                } else {
                    XAudio2Step::Done
                }
            },
            XAudio2Stage::ApplyEffects => match reply.effects {
                Some(error) => XAudio2Step::Failed(error),
                None => {
                    run.stage = XAudio2Stage::FirstState;
                    XAudio2Step::Call
                },
            },
            XAudio2Stage::FirstState => {
                self.reap_completed_buffers(reply.queued);
                self.enter(run);
                self.next_chunk(run)
            },
            XAudio2Stage::CapacityState => {
                self.reap_completed_buffers(reply.queued);
                let frames: usize = run.chunk.len() / self.channels as usize;
                assert(frames == run.chunk@.len() / self.channels as nat);
                if self.queued_buffers.len() == 0 || self.queued_frames.saturating_add(frames)
                    <= self.maximum_queue_frames {
                    run.stage = XAudio2Stage::Submit;
                } else {
                    run.stage = XAudio2Stage::CapacitySleep;
                }
                XAudio2Step::Call
            },
            XAudio2Stage::CapacitySleep => {
                if run.spins + 1 >= MAX_SPINS {
                    return XAudio2Step::Failed(
                        SinkError::on_write(
                            "XAudio2 queue did not make room for PCM within 30 seconds",
                        ),
                    );
                }
                run.spins = run.spins + 1;
                run.stage = XAudio2Stage::CapacityState;
                XAudio2Step::Call
            },
            XAudio2Stage::Submit => {
                if let Err(error) = check_hr(
                    "IXAudio2SourceVoice::SubmitSourceBuffer",
                    reply.code,
                ) {
                    return XAudio2Step::Failed(error);
                }
                self.submitted(run);
                if self.ready(false) {
                    XAudio2Step::Call
                } else {
                    self.after_submit(run)
                }
            },
            XAudio2Stage::StartAfterSubmit => {
                if let Err(error) = check_hr("IXAudio2SourceVoice::Start", reply.code) {
                    return XAudio2Step::Failed(error);
                }
                self.voice_started = true;
                self.after_submit(run)
            },
            XAudio2Stage::StartForced => {
                if let Err(error) = check_hr("IXAudio2SourceVoice::Start", reply.code) {
                    return XAudio2Step::Failed(error);
                }
                self.voice_started = true;
                self.drain(run)
            },
            XAudio2Stage::DrainState => {
                if reply.queued == 0 {
                    self.drained(run)
                } else {
                    run.stage = XAudio2Stage::DrainSleep;
                    XAudio2Step::Call
                }
            },
            XAudio2Stage::DrainSleep => {
                if run.spins + 1 >= MAX_SPINS {
                    return XAudio2Step::Failed(
                        SinkError::on_write(
                            "XAudio2 did not release submitted PCM within 30 seconds",
                        ),
                    );
                }
                run.spins = run.spins + 1;
                run.stage = XAudio2Stage::DrainState;
                XAudio2Step::Call
            },
            XAudio2Stage::StopVoice => {
                if let Err(error) = check_hr("IXAudio2SourceVoice::Stop", reply.code) {
                    return XAudio2Step::Failed(error);
                }
                self.voice_started = false;
                if run.goal == XAudio2Goal::Stop {
                    self.running = false;
                    XAudio2Step::Done
                } else {
                    run.stage = XAudio2Stage::FlushBuffers;
                    XAudio2Step::Call
                }
            },
            XAudio2Stage::FlushBuffers => {
                if let Err(error) = check_hr(
                    "IXAudio2SourceVoice::FlushSourceBuffers",
                    reply.code,
                ) {
                    return XAudio2Step::Failed(error);
                }
                self.queued_buffers.clear();
                self.pending_samples.clear();
                self.queued_frames = 0;
                self.underrun_reported = false;
                assert(contents(self.queued_buffers@) =~= Seq::empty());
                XAudio2Step::Done
            },
        }
    }

    /// The samples of a packet enter.
    fn enter(&mut self, run: &mut XAudio2Run<T>)
        requires
            old(self).wf(),
        ensures
            final(self).wf(),
            final(self).sizes() == old(self).sizes(),
            final(run).goal == old(run).goal,
            final(self).with_run(*final(run)) == entered(old(self).with_run(*old(run))),
    {
        if self.voice_started && self.queued_buffers.len() == 0 && !self.underrun_reported {
            self.underruns = self.underruns.wrapping_add(1);
            self.underrun_reported = true;
        }
        self.pending_samples.append(&mut run.incoming);
    }

    /// The chunk is in the queue of the voice.
    fn submitted(&mut self, run: &mut XAudio2Run<T>)
        requires
            old(self).wf(),
            run_fits(old(self).sizes(), old(self).with_run(*old(run))),
            old(run).stage == XAudio2Stage::Submit,
        ensures
            final(self).wf(),
            final(self).sizes() == old(self).sizes(),
            final(run).goal == old(run).goal,
            final(self).with_run(*final(run)) == (QueueState {
                queue: contents(old(self).queued_buffers@).push(old(run).chunk@),
                chunk: Seq::empty(),
                underrun_reported: false,
                stage: XAudio2Stage::StartAfterSubmit,
                ..old(self).with_run(*old(run))
            }),
    {
        let ghost queue = contents(self.queued_buffers@);
        let ghost samples = run.chunk@;
        let frames: usize = run.chunk.len() / self.channels as usize;
        assert(frames == samples.len() / self.channels as nat);
        let mut chunk = Vec::new();
        std::mem::swap(&mut chunk, &mut run.chunk);
        self.queued_buffers.push_back(chunk);
        self.queued_frames = self.queued_frames.saturating_add(frames);
        self.underrun_reported = false;
        run.stage = XAudio2Stage::StartAfterSubmit;
        assert(contents(self.queued_buffers@) =~= queue.push(samples));
        assert(queue.push(samples).drop_last() =~= queue);
    }
}

/// The samples that a sink and a run hold, in the order in which they are played.
pub open spec fn held<T>(x: QueueState<T>) -> Seq<T> {
    joined(x.queue) + x.chunk + x.pending + x.incoming
}

/// Whether the next sample to enter comes after all that are held: a chunk is
/// under way only from when the packet has entered until it is submitted.
pub open spec fn in_order<T>(x: QueueState<T>) -> bool {
    if x.stage == XAudio2Stage::StartFirst || x.stage == XAudio2Stage::ApplyEffects || x.stage
        == XAudio2Stage::FirstState {
        x.chunk.len() == 0
    } else {
        x.incoming.len() == 0 && (x.stage == XAudio2Stage::StartAfterSubmit ==> x.chunk.len() == 0)
    }
}

/// Whether samples only fall into frames as a whole.
pub open spec fn whole_frames<T>(x: QueueState<T>, channels: nat) -> bool {
    &&& forall|i: int| 0 <= i < x.queue.len() ==> #[trigger] x.queue[i].len() % channels == 0
    &&& x.chunk.len() % channels == 0
    &&& x.pending.len() % channels == 0
    &&& x.incoming.len() % channels == 0
}

/// The samples of a queue are those of its first buffers and of the others.
proof fn lemma_joined_skip<T>(queue: Seq<Seq<T>>, count: nat)
    requires
        count <= queue.len(),
    ensures
        joined(queue) == joined(queue.take(count as int)) + joined(queue.skip(count as int)),
    decreases queue.len(),
{
    if count == queue.len() {
        assert(queue.take(count as int) =~= queue);
        assert(joined(queue.skip(count as int)) =~= Seq::empty());
    } else {
        lemma_joined_skip(queue.drop_last(), count);
        assert(queue.drop_last().take(count as int) =~= queue.take(count as int));
        assert(queue.drop_last().skip(count as int) =~= queue.skip(count as int).drop_last());
        assert(joined(queue.skip(count as int)) == joined(queue.skip(count as int).drop_last())
            + queue.last());
    }
}

/// No sample is lost, doubled or moved while packets are written: after a step
/// the sink holds what it held, less the buffers that the voice was done with.
pub proof fn law_writing_keeps_the_samples<T>(
    sizes: QueueSizes,
    x: QueueState<T>,
    reply: XAudio2Reply,
)
    requires
        in_order(x),
        sizes.channels > 0,
        sizes.chunk > 0,
        x.stage == XAudio2Stage::StartFirst || x.stage == XAudio2Stage::ApplyEffects || x.stage
            == XAudio2Stage::FirstState || x.stage == XAudio2Stage::CapacityState || x.stage
            == XAudio2Stage::CapacitySleep || x.stage == XAudio2Stage::Submit || x.stage
            == XAudio2Stage::StartAfterSubmit,
    ensures
        ({
            let (y, outcome) = step_of(sizes, XAudio2Goal::Write, x, reply);
            let done = if x.stage == XAudio2Stage::FirstState || x.stage
                == XAudio2Stage::CapacityState {
                finished(x.queue, reply.queued as nat)
            } else {
                0
            };
            &&& held(x) == joined(x.queue.take(done as int)) + held(y)
            &&& outcome is Call ==> in_order(y)
        }),
{
    let (y, outcome) = step_of(sizes, XAudio2Goal::Write, x, reply);
    let done = if x.stage == XAudio2Stage::FirstState || x.stage == XAudio2Stage::CapacityState {
        finished(x.queue, reply.queued as nat)
    } else {
        0
    };
    lemma_joined_skip(x.queue, done);
    assert(x.queue.skip(0) =~= x.queue);
    assert(joined(x.queue.take(0)) =~= Seq::empty());
    let size = sizes.chunk * sizes.channels;
    assert(size > 0) by (nonlinear_arith)
        requires
            size == sizes.chunk * sizes.channels,
            sizes.chunk > 0,
            sizes.channels > 0,
    ;
    assert(x.queue.push(x.chunk).drop_last() =~= x.queue);
    assert(joined(x.queue.push(x.chunk)) == joined(x.queue) + x.chunk);
    let waiting = x.pending + x.incoming;
    if waiting.len() >= size {
        assert(waiting.take(size as int) + waiting.skip(size as int) =~= waiting);
    }
    if x.pending.len() >= size {
        assert(x.pending.take(size as int) + x.pending.skip(size as int) =~= x.pending);
    }
    assert(held(x) =~= joined(x.queue.take(done as int)) + held(y));
}

/// The queue of the voice never holds more than its limit, but for a chunk that
/// is alone in it.
pub proof fn law_queue_is_bounded<T>(
    sizes: QueueSizes,
    goal: XAudio2Goal,
    x: QueueState<T>,
    reply: XAudio2Reply,
)
    requires
        sizes.channels > 0,
        run_fits(sizes, x),
        x.queue.len() <= 1 || queue_frames(x.queue, sizes.channels) <= sizes.maximum,
    ensures
        ({
            let y = step_of(sizes, goal, x, reply).0;
            y.queue.len() <= 1 || queue_frames(y.queue, sizes.channels) <= sizes.maximum
        }),
{
    let done = finished(x.queue, reply.queued as nat);
    lemma_frames_after_skip(x.queue, done, sizes.channels);
    assert(x.queue.push(x.chunk).drop_last() =~= x.queue);
}

/// Fewer buffers hold no more frames.
proof fn lemma_frames_after_skip<T>(queue: Seq<Seq<T>>, count: nat, channels: nat)
    requires
        channels > 0,
        count <= queue.len(),
    ensures
        queue_frames(queue.skip(count as int), channels) <= queue_frames(queue, channels),
    decreases count,
{
    if count == 0 {
        assert(queue.skip(0) =~= queue);
    } else {
        vstd::arithmetic::div_mod::lemma_div_pos_is_pos(
            queue.first().len() as int,
            channels as int,
        );
        lemma_first_frames(queue, channels);
        lemma_frames_after_skip(queue.skip(1), (count - 1) as nat, channels);
        assert(queue.skip(1).skip(count - 1) =~= queue.skip(count as int));
    }
}

/// Frames stay whole: if nothing that is held cuts a frame, nothing does after
/// a step.
pub proof fn law_frames_stay_whole<T>(
    sizes: QueueSizes,
    goal: XAudio2Goal,
    x: QueueState<T>,
    reply: XAudio2Reply,
)
    requires
        sizes.channels > 0,
        whole_frames(x, sizes.channels),
    ensures
        whole_frames(step_of(sizes, goal, x, reply).0, sizes.channels),
{
    let channels = sizes.channels as int;
    let size = sizes.chunk * sizes.channels;
    let y = step_of(sizes, goal, x, reply).0;
    vstd::arithmetic::div_mod::lemma_mod_multiples_basic(sizes.chunk as int, channels);
    let pending = x.pending.len() as int;
    let incoming = x.incoming.len() as int;
    vstd::arithmetic::div_mod::lemma_add_mod_noop(pending, incoming, channels);
    vstd::arithmetic::div_mod::lemma_sub_mod_noop(pending, size as int, channels);
    vstd::arithmetic::div_mod::lemma_sub_mod_noop(pending + incoming, size as int, channels);
    vstd::arithmetic::div_mod::lemma_small_mod(0, sizes.channels);
    assert(y.pending.len() % sizes.channels == 0);
    assert(y.chunk.len() % sizes.channels == 0);
}

/// The frames of a time are as many as go into it whole.
pub proof fn law_frames_fill_their_time(sample_rate: u32, milliseconds: u32)
    ensures
        frames_in(sample_rate, milliseconds) * 1_000 <= sample_rate * milliseconds,
        sample_rate * milliseconds < (frames_in(sample_rate, milliseconds) + 1) * 1_000,
        frames_in(sample_rate, 1_000) == sample_rate,
{
}

/// A sink and its run are shown as they are.
pub proof fn law_a_sink_is_shown_as_it_is<T>(
    sink: XAudio2Sink<T>,
    run: XAudio2Run<T>,
    incoming: Seq<T>,
)
    ensures
        ({
            let x = sink.with_run(run);
            &&& x.queue.len() == sink.queued_buffers@.len()
            &&& forall|i: int|
                0 <= i < x.queue.len() ==> #[trigger] x.queue[i] == sink.queued_buffers@[i]@
            &&& x.pending == sink.pending_samples@
            &&& x.running == sink.running && x.voice_started == sink.voice_started
            &&& x.underruns == sink.underruns && x.underrun_reported == sink.underrun_reported
            &&& x.stage == run.stage && x.chunk == run.chunk@ && x.incoming == run.incoming@
            &&& x.spins == run.spins
        }),
        ({
            let x = sink.at_rest(incoming);
            &&& x.queue == contents(sink.queued_buffers@) && x.pending == sink.pending_samples@
            &&& x.running == sink.running && x.voice_started == sink.voice_started
            &&& x.underruns == sink.underruns && x.underrun_reported == sink.underrun_reported
            &&& x.chunk.len() == 0 && x.incoming == incoming && x.spins == 0
        }),
        ({
            let sizes = sink.sizes();
            &&& sizes.channels == sink.channels && sizes.pre_roll == sink.pre_roll_frames
            &&& sizes.maximum == sink.maximum_queue_frames
            &&& sizes.chunk == sink.submission_chunk_frames
        }),
{
}

/// The frames of two queues together are those of both, and a buffer has as many
/// as its samples fill.
pub proof fn law_frames_are_counted_buffer_by_buffer<T>(
    a: Seq<Seq<T>>,
    b: Seq<Seq<T>>,
    channels: nat,
    buffer: Seq<T>,
)
    requires
        channels > 0,
    ensures
        queue_frames(a + b, channels) == queue_frames(a, channels) + queue_frames(b, channels),
        queue_frames(seq![buffer], channels) == buffer.len() / channels,
        joined(a + b) == joined(a) + joined(b),
        joined(seq![buffer]) == buffer,
    decreases b.len(),
{
    let one = seq![buffer];
    assert(one.drop_last() =~= Seq::empty());
    assert(queue_frames(one.drop_last(), channels) == 0);
    assert(joined(one.drop_last()) == Seq::<T>::empty());
    assert(joined(one) =~= buffer);
    if b.len() == 0 {
        assert(a + b =~= a);
        assert(joined(a) + joined(b) =~= joined(a));
    } else {
        law_frames_are_counted_buffer_by_buffer(a, b.drop_last(), channels, buffer);
        assert((a + b).drop_last() =~= a + b.drop_last());
        assert((a + b).last() == b.last());
        assert(joined(a + b) =~= joined(a) + joined(b));
    }
}

/// Whether reply number `i` leads from one of the states to the next.
pub open spec fn is_queue_step<T>(
    sizes: QueueSizes,
    goal: XAudio2Goal,
    states: Seq<(QueueState<T>, Outcome)>,
    replies: Seq<XAudio2Reply>,
    i: int,
) -> bool {
    &&& states[i].1 is Call
    &&& states[i + 1] == step_of(sizes, goal, states[i].0, replies[i])
}

/// Whether a run goes through the states, reply by reply, and begins as the sink
/// begins it.
pub open spec fn is_queue_run<T>(
    sizes: QueueSizes,
    goal: XAudio2Goal,
    rest: QueueState<T>,
    states: Seq<(QueueState<T>, Outcome)>,
    replies: Seq<XAudio2Reply>,
) -> bool {
    &&& sizes.channels > 0
    &&& sizes.chunk > 0
    &&& rest.chunk.len() == 0
    &&& rest.stage == XAudio2Stage::ApplyEffects
    &&& goal != XAudio2Goal::Write ==> rest.incoming.len() == 0
    &&& states.len() == replies.len() + 1
    &&& states[0] == match goal {
        XAudio2Goal::Start => started(sizes, rest),
        XAudio2Goal::Write => written(sizes, rest),
        XAudio2Goal::Stop => stopped(sizes, rest),
        XAudio2Goal::Flush => flushed(rest),
    }
    &&& forall|i: int|
        0 <= i < replies.len() ==> #[trigger] is_queue_step(sizes, goal, states, replies, i)
}

/// The samples of the buffers that the voice was done with by state number `n`.
pub open spec fn played<T>(
    states: Seq<(QueueState<T>, Outcome)>,
    replies: Seq<XAudio2Reply>,
    n: int,
) -> Seq<T>
    decreases n,
{
    if n <= 0 {
        Seq::empty()
    } else {
        let x = states[n - 1].0;
        played(states, replies, n - 1) + if x.stage == XAudio2Stage::FirstState || x.stage
            == XAudio2Stage::CapacityState {
            joined(x.queue.take(finished(x.queue, replies[n - 1].queued as nat) as int))
        } else {
            Seq::empty()
        }
    }
}

/// What holds at every state of a run that writes a packet.
spec fn writes<T>(
    sizes: QueueSizes,
    rest: QueueState<T>,
    states: Seq<(QueueState<T>, Outcome)>,
    replies: Seq<XAudio2Reply>,
    n: int,
) -> bool {
    let x = states[n].0;
    &&& x.running
    &&& rest.voice_started ==> x.voice_started
    &&& held(rest) == played(states, replies, n) + held(x)
    &&& states[n].1 is Call ==> {
        &&& in_order(x)
        &&& x.stage == XAudio2Stage::StartFirst || x.stage == XAudio2Stage::ApplyEffects || x.stage
            == XAudio2Stage::FirstState || x.stage == XAudio2Stage::CapacityState || x.stage
            == XAudio2Stage::CapacitySleep || x.stage == XAudio2Stage::Submit || x.stage
            == XAudio2Stage::StartAfterSubmit
        &&& x.stage != XAudio2Stage::StartFirst && x.stage != XAudio2Stage::StartAfterSubmit
            ==> !is_ready(sizes, x, false)
    }
    &&& states[n].1 is Done ==> {
        &&& x.chunk.len() == 0
        &&& x.incoming.len() == 0
        &&& x.pending.len() < sizes.chunk * sizes.channels
        &&& !is_ready(sizes, x, false)
    }
}

proof fn lemma_writes<T>(
    sizes: QueueSizes,
    rest: QueueState<T>,
    states: Seq<(QueueState<T>, Outcome)>,
    replies: Seq<XAudio2Reply>,
    n: int,
)
    requires
        is_queue_run(sizes, XAudio2Goal::Write, rest, states, replies),
        rest.incoming.len() % sizes.channels == 0,
        rest.running ==> !is_ready(sizes, rest, false),
        0 <= n < states.len(),
    ensures
        writes(sizes, rest, states, replies, n),
    decreases n,
{
    if n == 0 {
        assert(Seq::<T>::empty() + held(states[0].0) =~= held(states[0].0));
        assert(held(rest) =~= held(states[0].0));
    } else {
        let before = n - 1;
        assert(is_queue_step(sizes, XAudio2Goal::Write, states, replies, before));
        lemma_writes(sizes, rest, states, replies, before);
        let x = states[before].0;
        let y = states[n].0;
        law_writing_keeps_the_samples(sizes, x, replies[before]);
        let done = finished(x.queue, replies[before].queued as nat);
        lemma_frames_after_skip(x.queue, done, sizes.channels);
        let gone = played(states, replies, before);
        let more = if x.stage == XAudio2Stage::FirstState || x.stage
            == XAudio2Stage::CapacityState {
            joined(x.queue.take(done as int))
        } else {
            Seq::empty()
        };
        assert(joined(x.queue.take(0)) =~= Seq::empty());
        assert(held(x) =~= more + held(y));
        assert(gone + (more + held(y)) =~= (gone + more) + held(y));
    }
}

/// A write that succeeds loses no sample. What was waiting and the packet behind
/// it are, in their order, what the voice was done with meanwhile, what is queued
/// for it and less than a chunk that still waits. The sink runs, and the voice
/// runs too unless too little is queued for it to start.
pub proof fn law_a_packet_is_queued_whole<T>(
    sizes: QueueSizes,
    rest: QueueState<T>,
    states: Seq<(QueueState<T>, Outcome)>,
    replies: Seq<XAudio2Reply>,
)
    requires
        is_queue_run(sizes, XAudio2Goal::Write, rest, states, replies),
        rest.running ==> !is_ready(sizes, rest, false),
        states.last().1 is Done,
    ensures
        ({
            let y = states.last().0;
            &&& rest.incoming.len() % sizes.channels == 0
            &&& joined(rest.queue) + rest.pending + rest.incoming == played(
                states,
                replies,
                replies.len() as int,
            ) + joined(y.queue) + y.pending
            &&& y.pending.len() < sizes.chunk * sizes.channels
            &&& y.running
            &&& rest.voice_started ==> y.voice_started
            &&& y.voice_started || queue_frames(y.queue, sizes.channels) == 0 || queue_frames(
                y.queue,
                sizes.channels,
            ) < sizes.pre_roll
        }),
{
    if rest.incoming.len() % sizes.channels != 0 {
        if replies.len() > 0 {
            assert(is_queue_step(sizes, XAudio2Goal::Write, states, replies, 0));
        }
    }
    let n = replies.len() as int;
    lemma_writes(sizes, rest, states, replies, n);
    let y = states.last().0;
    let gone = played(states, replies, n);
    assert(held(rest) =~= joined(rest.queue) + rest.pending + rest.incoming);
    assert(held(y) =~= joined(y.queue) + y.pending);
    assert(gone + (joined(y.queue) + y.pending) =~= gone + joined(y.queue) + y.pending);
}

/// Whether a call was answered with success before state number `n`.
pub open spec fn was_answered<T>(
    states: Seq<(QueueState<T>, Outcome)>,
    replies: Seq<XAudio2Reply>,
    n: int,
    stage: XAudio2Stage,
) -> bool {
    exists|j: int|
        0 <= j < n && (#[trigger] states[j]).0.stage == stage && replies[j].code >= 0
}

/// Whether the voice reported that it has nothing left, before state number `n`.
pub open spec fn was_drained<T>(
    states: Seq<(QueueState<T>, Outcome)>,
    replies: Seq<XAudio2Reply>,
    n: int,
) -> bool {
    exists|j: int|
        0 <= j < n && (#[trigger] states[j]).0.stage == XAudio2Stage::DrainState
            && replies[j].queued == 0
}

/// Whether what was waiting was submitted as it was, before state number `n`.
pub open spec fn was_submitted<T>(
    rest: QueueState<T>,
    states: Seq<(QueueState<T>, Outcome)>,
    replies: Seq<XAudio2Reply>,
    n: int,
) -> bool {
    exists|j: int|
        0 <= j < n && (#[trigger] states[j]).0.stage == XAudio2Stage::Submit && states[j].0.chunk
            == rest.pending && replies[j].code >= 0
}

/// Whether nothing of what was waiting is left to be submitted.
spec fn nothing_waits<T>(
    rest: QueueState<T>,
    states: Seq<(QueueState<T>, Outcome)>,
    replies: Seq<XAudio2Reply>,
    n: int,
) -> bool {
    rest.pending.len() > 0 ==> was_submitted(rest, states, replies, n)
}

/// Whether a sink has a whole frame to play: in its queue, or in what waits to be
/// submitted.
pub open spec fn has_audio<T>(sizes: QueueSizes, x: QueueState<T>) -> bool {
    ||| x.pending.len() >= sizes.channels
    ||| x.pending.len() == 0 && queue_frames(x.queue, sizes.channels) > 0
}

/// What holds at every state of a run that stops a sink that runs.
spec fn stops<T>(
    sizes: QueueSizes,
    rest: QueueState<T>,
    states: Seq<(QueueState<T>, Outcome)>,
    replies: Seq<XAudio2Reply>,
    n: int,
) -> bool {
    let x = states[n].0;
    &&& x.pending.len() == 0
    &&& states[n].1 is Call ==> {
        &&& x.running
        &&& match x.stage {
            XAudio2Stage::CapacityState | XAudio2Stage::CapacitySleep | XAudio2Stage::Submit =>
            x.chunk == rest.pending && rest.pending.len() > 0,
            XAudio2Stage::StartAfterSubmit => nothing_waits(rest, states, replies, n)
                && !x.voice_started && queue_frames(x.queue, sizes.channels) > 0,
            XAudio2Stage::StartForced => nothing_waits(rest, states, replies, n)
                && !x.voice_started && queue_frames(x.queue, sizes.channels) > 0,
            XAudio2Stage::DrainState | XAudio2Stage::DrainSleep => nothing_waits(
                rest,
                states,
                replies,
                n,
            ) && x.voice_started,
            XAudio2Stage::StopVoice => nothing_waits(rest, states, replies, n) && was_drained(
                states,
                replies,
                n,
            ) && x.voice_started && x.queue.len() == 0,
            _ => false,
        }
    }
    &&& states[n].1 is Done ==> {
        &&& !x.running
        &&& !x.voice_started
        &&& x.queue.len() == 0
        &&& nothing_waits(rest, states, replies, n)
        &&& rest.voice_started || has_audio(sizes, rest) ==> was_drained(states, replies, n)
    }
}

proof fn lemma_stops<T>(
    sizes: QueueSizes,
    rest: QueueState<T>,
    states: Seq<(QueueState<T>, Outcome)>,
    replies: Seq<XAudio2Reply>,
    n: int,
)
    requires
        is_queue_run(sizes, XAudio2Goal::Stop, rest, states, replies),
        rest.running,
        0 <= n < states.len(),
    ensures
        stops(sizes, rest, states, replies, n),
        states[n].1 is Call && rest.voice_started ==> states[n].0.voice_started,
    decreases n,
{
    if n > 0 {
        let before = n - 1;
        assert(is_queue_step(sizes, XAudio2Goal::Stop, states, replies, before));
        lemma_stops(sizes, rest, states, replies, before);
        let x = states[before].0;
        if was_submitted(rest, states, replies, before) {
            let j = choose|j: int|
                0 <= j < before && (#[trigger] states[j]).0.stage == XAudio2Stage::Submit
                    && states[j].0.chunk == rest.pending && replies[j].code >= 0;
            assert(0 <= j < n && states[j].0.stage == XAudio2Stage::Submit);
        }
        if was_drained(states, replies, before) {
            let j = choose|j: int|
                0 <= j < before && (#[trigger] states[j]).0.stage == XAudio2Stage::DrainState
                    && replies[j].queued == 0;
            assert(0 <= j < n && states[j].0.stage == XAudio2Stage::DrainState);
        }
        if x.stage == XAudio2Stage::Submit && replies[before].code >= 0 {
            assert(was_submitted(rest, states, replies, n));
            assert(x.queue.push(x.chunk).drop_last() =~= x.queue);
            if x.chunk.len() >= sizes.channels {
                vstd::arithmetic::div_mod::lemma_div_non_zero(
                    x.chunk.len() as int,
                    sizes.channels as int,
                );
                assert(queue_frames(x.queue.push(x.chunk), sizes.channels) > 0);
            }
        }
        if x.stage == XAudio2Stage::DrainState && replies[before].queued == 0 {
            assert(was_drained(states, replies, n));
        }
    }
}

/// A sink that stops plays what it has first. What was waiting was submitted as
/// it was, the voice had nothing left when it was stopped, if it was started or
/// there was anything to play, and the sink ends empty and does not run. A sink
/// that does not run is left as it is.
pub proof fn law_a_sink_stops_once_all_is_played<T>(
    sizes: QueueSizes,
    rest: QueueState<T>,
    states: Seq<(QueueState<T>, Outcome)>,
    replies: Seq<XAudio2Reply>,
)
    requires
        is_queue_run(sizes, XAudio2Goal::Stop, rest, states, replies),
        states.last().1 is Done,
    ensures
        ({
            let y = states.last().0;
            let n = replies.len() as int;
            &&& !y.running
            &&& !rest.running ==> replies.len() == 0 && y == rest
            &&& rest.running ==> {
                &&& !y.voice_started
                &&& y.queue.len() == 0
                &&& y.pending.len() == 0
                &&& rest.pending.len() > 0 ==> was_submitted(rest, states, replies, n)
                &&& rest.voice_started || has_audio(sizes, rest) ==> was_drained(
                    states,
                    replies,
                    n,
                )
            }
        }),
{
    if rest.running {
        lemma_stops(sizes, rest, states, replies, replies.len() as int);
    } else if replies.len() > 0 {
        assert(is_queue_step(sizes, XAudio2Goal::Stop, states, replies, 0));
    }
}

/// What holds at every state of a run that throws away what waits.
spec fn flushes<T>(
    rest: QueueState<T>,
    states: Seq<(QueueState<T>, Outcome)>,
    replies: Seq<XAudio2Reply>,
    n: int,
) -> bool {
    let x = states[n].0;
    &&& x.running == rest.running
    &&& x.underruns == rest.underruns
    &&& states[n].1 is Call ==> {
        ||| x.stage == XAudio2Stage::StopVoice && x.voice_started && n == 0
        ||| x.stage == XAudio2Stage::FlushBuffers && !x.voice_started && (rest.voice_started
            ==> was_answered(states, replies, n, XAudio2Stage::StopVoice))
    }
    &&& states[n].1 is Done ==> {
        &&& x.queue.len() == 0 && x.pending.len() == 0
        &&& !x.voice_started && !x.underrun_reported
        &&& was_answered(states, replies, n, XAudio2Stage::FlushBuffers)
        &&& rest.voice_started ==> was_answered(states, replies, n, XAudio2Stage::StopVoice)
    }
}

proof fn lemma_flushes<T>(
    sizes: QueueSizes,
    rest: QueueState<T>,
    states: Seq<(QueueState<T>, Outcome)>,
    replies: Seq<XAudio2Reply>,
    n: int,
)
    requires
        is_queue_run(sizes, XAudio2Goal::Flush, rest, states, replies),
        0 <= n < states.len(),
    ensures
        flushes(rest, states, replies, n),
    decreases n,
{
    if n > 0 {
        let before = n - 1;
        assert(is_queue_step(sizes, XAudio2Goal::Flush, states, replies, before));
        lemma_flushes(sizes, rest, states, replies, before);
        let x = states[before].0;
        if replies[before].code >= 0 {
            assert(was_answered(states, replies, n, x.stage));
        }
        if was_answered(states, replies, before, XAudio2Stage::StopVoice) {
            let j = choose|j: int|
                0 <= j < before && (#[trigger] states[j]).0.stage == XAudio2Stage::StopVoice
                    && replies[j].code >= 0;
            assert(0 <= j < n && states[j].0.stage == XAudio2Stage::StopVoice);
        }
    }
}

/// A flush throws away all that waits, after it stopped a voice that was started.
/// Whether the sink runs does not change.
pub proof fn law_a_flush_throws_all_away<T>(
    sizes: QueueSizes,
    rest: QueueState<T>,
    states: Seq<(QueueState<T>, Outcome)>,
    replies: Seq<XAudio2Reply>,
)
    requires
        is_queue_run(sizes, XAudio2Goal::Flush, rest, states, replies),
        states.last().1 is Done,
    ensures
        ({
            let y = states.last().0;
            let n = replies.len() as int;
            &&& y.queue.len() == 0 && y.pending.len() == 0
            &&& !y.voice_started
            &&& y.running == rest.running
            &&& was_answered(states, replies, n, XAudio2Stage::FlushBuffers)
            &&& rest.voice_started ==> was_answered(states, replies, n, XAudio2Stage::StopVoice)
        }),
{
    lemma_flushes(sizes, rest, states, replies, replies.len() as int);
}

/// A start that succeeds leaves a sink that runs with all that it held, and a
/// voice that was started if enough was queued.
pub proof fn law_a_start_starts_the_voice<T>(
    sizes: QueueSizes,
    rest: QueueState<T>,
    states: Seq<(QueueState<T>, Outcome)>,
    replies: Seq<XAudio2Reply>,
)
    requires
        is_queue_run(sizes, XAudio2Goal::Start, rest, states, replies),
        states.last().1 is Done,
    ensures
        ({
            let y = states.last().0;
            &&& y.running
            &&& y.queue == rest.queue && y.pending == rest.pending
            &&& rest.voice_started ==> y.voice_started
            &&& !rest.running && queue_frames(rest.queue, sizes.channels) > 0 && queue_frames(
                rest.queue,
                sizes.channels,
            ) >= sizes.pre_roll ==> y.voice_started
            &&& y.voice_started && !rest.voice_started ==> was_answered(
                states,
                replies,
                replies.len() as int,
                XAudio2Stage::StartFirst,
            )
        }),
{
    if replies.len() > 0 {
        assert(is_queue_step(sizes, XAudio2Goal::Start, states, replies, 0));
        if replies[0].code >= 0 {
            assert(was_answered(
                states,
                replies,
                replies.len() as int,
                XAudio2Stage::StartFirst,
            ));
        }
        if replies.len() > 1 {
            assert(is_queue_step(sizes, XAudio2Goal::Start, states, replies, 1));
        }
    }
}

/// A run fails only for cause: a call reported a failure, the effects could not
/// be applied, or the voice made no progress through thirty thousand pauses of a
/// millisecond. It then leaves everything as it was.
pub proof fn law_a_run_fails_only_for_cause<T>(
    sizes: QueueSizes,
    goal: XAudio2Goal,
    x: QueueState<T>,
    reply: XAudio2Reply,
)
    ensures
        ({
            let (y, outcome) = step_of(sizes, goal, x, reply);
            let calls = x.stage == XAudio2Stage::StartFirst || x.stage
                == XAudio2Stage::StartAfterSubmit || x.stage == XAudio2Stage::StartForced || x.stage
                == XAudio2Stage::Submit || x.stage == XAudio2Stage::StopVoice || x.stage
                == XAudio2Stage::FlushBuffers;
            let pauses = x.stage == XAudio2Stage::CapacitySleep || x.stage
                == XAudio2Stage::DrainSleep;
            &&& outcome is Failed <==> {
                ||| calls && reply.code < 0
                ||| x.stage == XAudio2Stage::ApplyEffects && reply.effects is Some
                ||| pauses && x.spins + 1 >= 30_000
            }
            &&& outcome is Failed ==> y == x
            &&& pauses && !(outcome is Failed) ==> y.spins == x.spins + 1
            &&& outcome matches Outcome::Failed(kind, message) ==> {
                &&& calls ==> kind == SinkErrorKind::NotConnected && message
                    == crate::windows_native::failure_text(call_name(x.stage), reply.code)
                &&& pauses ==> kind == SinkErrorKind::OnWrite
                &&& x.stage == XAudio2Stage::ApplyEffects ==> (reply.effects matches Some(error)
                    && kind == error.kind() && message == error.text())
            }
        }),
{
}

/// A voice that ran dry is counted once: where a packet finds a started voice with
/// an empty queue, and not again before a chunk was submitted.
pub proof fn law_underruns_are_counted_once<T>(
    sizes: QueueSizes,
    goal: XAudio2Goal,
    x: QueueState<T>,
    reply: XAudio2Reply,
)
    requires
        x.underruns < u64::MAX,
    ensures
        ({
            let y = step_of(sizes, goal, x, reply).0;
            let dry = x.stage == XAudio2Stage::FirstState && x.voice_started && (x.queue.len() == 0
                || reply.queued == 0) && !x.underrun_reported;
            &&& dry ==> y.underruns == x.underruns + 1 && y.underrun_reported
            &&& !dry ==> y.underruns == x.underruns
            &&& x.stage == XAudio2Stage::Submit && reply.code >= 0 ==> !y.underrun_reported
            &&& x.stage != XAudio2Stage::Submit && x.stage != XAudio2Stage::FlushBuffers && !dry
                ==> y.underrun_reported == x.underrun_reported
        }),
{
}

/// The voice keeps the buffers that it has not played, the newest ones, and is
/// done with all before them.
pub proof fn law_the_newest_buffers_are_kept<T>(x: QueueState<T>, queued: nat)
    ensures
        ({
            let y = reaped(x, queued);
            &&& y.queue.len() <= queued || y.queue == x.queue
            &&& x.queue.len() >= queued ==> y.queue.len() == queued
            &&& x.queue.len() < queued ==> y.queue == x.queue
            &&& forall|i: int|
                0 <= i < y.queue.len() ==> #[trigger] y.queue[i] == x.queue[x.queue.len()
                    - y.queue.len() + i]
            &&& y.pending == x.pending && y.chunk == x.chunk && y.incoming == x.incoming
        }),
{
    assert(x.queue.skip(0) =~= x.queue);
}

/// A packet that cuts a frame is refused, and nothing of it is taken.
pub proof fn law_a_cut_frame_is_refused<T>(sizes: QueueSizes, x: QueueState<T>)
    ensures
        written(sizes, x).1 is Failed <==> x.incoming.len() % sizes.channels != 0,
        written(sizes, x).1 is Failed ==> written(sizes, x).0 == x,
        written(sizes, x).1 is Failed || written(sizes, x).1 is Call,
        !(written(sizes, x).1 is Failed) ==> written(sizes, x).0.running,
{
}

/// A call that fails is reported by the name of what it calls.
pub proof fn law_calls_have_their_names(stage: XAudio2Stage)
    ensures
        stage is StartFirst || stage is StartAfterSubmit || stage is StartForced ==> call_name(
            stage,
        ) == "IXAudio2SourceVoice::Start"@,
        stage is Submit ==> call_name(stage) == "IXAudio2SourceVoice::SubmitSourceBuffer"@,
        stage is StopVoice ==> call_name(stage) == "IXAudio2SourceVoice::Stop"@,
        stage is FlushBuffers ==> call_name(stage) == "IXAudio2SourceVoice::FlushSourceBuffers"@,
{
}

/// Pauses are counted from the beginning of a wait: a voice that is asked for the
/// first time whether it has room, or whether it has played everything, may still
/// take all of its time.
pub proof fn law_a_wait_is_counted_from_its_beginning<T>(
    sizes: QueueSizes,
    goal: XAudio2Goal,
    x: QueueState<T>,
    reply: XAudio2Reply,
)
    ensures
        ({
            let (y, outcome) = step_of(sizes, goal, x, reply);
            outcome is Call ==> {
                &&& y.stage == XAudio2Stage::CapacityState && x.stage
                    != XAudio2Stage::CapacitySleep ==> y.spins == 0
                &&& y.stage == XAudio2Stage::DrainState && x.stage != XAudio2Stage::DrainSleep
                    ==> y.spins == 0
            }
        }),
{
}

} // verus!
