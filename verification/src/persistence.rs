//! How a track comes to be kept for playing without a connection, and how it is
//! given up again: which call comes next, and what its result leads to.
use crate::errors::ErrorKind;
use crate::ids::FileId;
use crate::offline::{choose_file, AudioFileFormat, OfflineIndex};
use vstd::prelude::*;

verus! {

/// The bytes that are fetched at a time.
pub const CHUNK_LEN: usize = 262_144;

/// How often it is looked whether a file that was fetched is in the cache.
pub const MAX_POLLS: u32 = 100;

/// The pause between two looks, in milliseconds.
pub const POLL_PAUSE_MS: u64 = 100;

/// The rate at which a file is taken to be fetched, in bytes per second.
pub const BYTES_PER_SECOND: usize = 40_960;

/// The call that is due.
#[derive(Debug, Clone, Copy, PartialEq, Eq, Structural)]
pub enum PersistCall {
    /// Wait until no other track is being fetched.
    AcquireGate,
    /// Read the address of the track.
    ParseUri,
    /// Ask which files the track has.
    FetchItem,
    /// Look whether the chosen file is kept already.
    CheckPersisted,
    /// Open the chosen file.
    OpenFile,
    /// Ask for the key of the chosen file.
    RequestKey,
    /// Fetch the range of the file that the plan names.
    FetchRange,
    /// Look whether the file is in the cache.
    CheckCached,
    Pause,
    /// Move the file to where files are kept.
    KeepFile,
    /// Put the track into the index.
    StoreEntry,
    /// Move the lyrics to where lyrics are kept, whether or not that works.
    KeepLyrics,
    /// Fetch lyrics that are missing, whether or not that works.
    PrefetchLyrics,
    /// Look whether the file that the index names is kept.
    CheckKept,
    /// Move the file back to the cache.
    ReleaseFile,
    /// Take the track off the index.
    RemoveEntry,
    /// Delete the lyrics, whether or not that works.
    RemoveLyrics,
}

/// What came of a call. `E` is the type of errors of the calls.
#[derive(Debug)]
pub enum PersistReply<E> {
    Done,
    Failed(E),
    Yes,
    No,
    /// The address is not that of a track.
    NotATrack,
    Files(Vec<(AudioFileFormat, FileId)>),
    /// The length of the file.
    Length(usize),
}

/// Where a run stands after a call.
#[derive(Debug)]
pub enum PersistStep<E> {
    /// The call that the plan names is due.
    Call,
    Done,
    Failed(E),
    /// The track cannot be kept.
    Refused(ErrorKind, &'static str),
}

/// How far a run is.
#[derive(Debug, Clone, Copy, PartialEq, Eq, Structural)]
pub struct PersistPlan {
    pub call: PersistCall,
    /// The format of the chosen file.
    pub format: AudioFileFormat,
    /// The length of the file.
    pub total: usize,
    /// The bytes that were fetched.
    pub offset: usize,
    /// The looks that found nothing.
    pub polls: u32,
}

/// A run that keeps a track or gives one up.
#[derive(Debug)]
pub struct PersistRun {
    pub plan: PersistPlan,
    /// The file that was chosen, or that the index names.
    pub file: FileId,
}

/// The bytes that are fetched next.
pub open spec fn next_len(plan: PersistPlan) -> int {
    if plan.total - plan.offset < CHUNK_LEN {
        plan.total - plan.offset
    } else {
        CHUNK_LEN as int
    }
}

/// What a step of a run comes to.
pub enum PersistOutcome<E> {
    Call,
    Done,
    Failed(E),
    Refused(ErrorKind, Seq<char>),
}

/// The outcome that a step reports.
pub open spec fn persist_outcome<E>(step: PersistStep<E>) -> PersistOutcome<E> {
    match step {
        PersistStep::Call => PersistOutcome::Call,
        PersistStep::Done => PersistOutcome::Done,
        PersistStep::Failed(error) => PersistOutcome::Failed(error),
        PersistStep::Refused(kind, message) => PersistOutcome::Refused(kind, message@),
    }
}

/// Whether a reply is one that a call can have.
pub open spec fn reply_fits<E>(call: PersistCall, reply: PersistReply<E>) -> bool {
    match call {
        PersistCall::ParseUri => reply is Done || reply is Failed || reply is NotATrack,
        PersistCall::FetchItem => reply is Files || reply is Failed,
        PersistCall::CheckPersisted => reply is Yes || reply is No,
        PersistCall::CheckCached => reply is Yes || reply is No,
        PersistCall::CheckKept => reply is Yes || reply is No,
        PersistCall::OpenFile => reply is Length || reply is Failed,
        PersistCall::Pause => reply is Done,
        _ => reply is Done || reply is Failed,
    }
}

/// The next call is due.
pub open spec fn calls<E>(plan: PersistPlan, call: PersistCall) -> (
    PersistPlan,
    PersistOutcome<E>,
) {
    (PersistPlan { call, ..plan }, PersistOutcome::Call)
}

/// Goes on with fetching: the next range, or the look into the cache once all
/// is fetched.
pub open spec fn fetches<E>(plan: PersistPlan) -> (PersistPlan, PersistOutcome<E>) {
    if plan.offset < plan.total {
        calls(plan, PersistCall::FetchRange)
    } else {
        calls(plan, PersistCall::CheckCached)
    }
}

/// What the reply to the call that was due leads to.
pub open spec fn persist_step<E>(
    plan: PersistPlan,
    preferred: Seq<AudioFileFormat>,
    reply: PersistReply<E>,
) -> (PersistPlan, PersistOutcome<E>) {
    match (plan.call, reply) {
        (PersistCall::KeepLyrics, _) => calls(plan, PersistCall::PrefetchLyrics),
        (PersistCall::PrefetchLyrics, _) => (plan, PersistOutcome::Done),
        (PersistCall::RemoveLyrics, _) => (plan, PersistOutcome::Done),
        (_, PersistReply::Failed(error)) => (plan, PersistOutcome::Failed(error)),
        (PersistCall::AcquireGate, _) => calls(plan, PersistCall::ParseUri),
        (PersistCall::ParseUri, PersistReply::NotATrack) => (
            plan,
            PersistOutcome::Refused(
                ErrorKind::InvalidArgument,
                "track URI is not a playable Spotify track"@,
            ),
        ),
        (PersistCall::ParseUri, _) => calls(plan, PersistCall::FetchItem),
        (PersistCall::FetchItem, PersistReply::Files(files)) => match crate::offline::chosen_file(
            preferred,
            files@,
        ) {
            None => (
                plan,
                PersistOutcome::Refused(
                    ErrorKind::Unavailable,
                    "track has no supported audio file"@,
                ),
            ),
            Some((format, file)) => calls(
                PersistPlan { format, ..plan },
                PersistCall::CheckPersisted,
            ),
        },
        (PersistCall::CheckPersisted, PersistReply::Yes) => calls(plan, PersistCall::StoreEntry),
        (PersistCall::CheckPersisted, _) => calls(plan, PersistCall::OpenFile),
        (PersistCall::OpenFile, PersistReply::Length(total)) => calls(
            PersistPlan { total, offset: 0, ..plan },
            PersistCall::RequestKey,
        ),
        (PersistCall::RequestKey, _) => fetches(plan),
        (PersistCall::FetchRange, _) => fetches(
            PersistPlan { offset: (plan.offset + next_len(plan)) as usize, ..plan },
        ),
        (PersistCall::CheckCached, PersistReply::Yes) => calls(plan, PersistCall::KeepFile),
        (PersistCall::CheckCached, _) => calls(plan, PersistCall::Pause),
        (PersistCall::Pause, _) => if plan.polls + 1 >= MAX_POLLS {
            (
                plan,
                PersistOutcome::Refused(
                    ErrorKind::DeadlineExceeded,
                    "timed out waiting for cached track file"@,
                ),
            )
        } else {
            calls(
                PersistPlan { polls: (plan.polls + 1) as u32, ..plan },
                PersistCall::CheckCached,
            )
        },
        (PersistCall::KeepFile, _) => calls(plan, PersistCall::StoreEntry),
        (PersistCall::StoreEntry, _) => calls(plan, PersistCall::KeepLyrics),
        (PersistCall::CheckKept, PersistReply::Yes) => calls(plan, PersistCall::ReleaseFile),
        (PersistCall::CheckKept, _) => calls(plan, PersistCall::RemoveEntry),
        (PersistCall::ReleaseFile, _) => calls(plan, PersistCall::RemoveEntry),
        (PersistCall::RemoveEntry, _) => calls(plan, PersistCall::RemoveLyrics),
        _ => (plan, PersistOutcome::Done),
    }
}

/// The call that a run begins with.
pub open spec fn first_call(
    index: OfflineIndex,
    track_uri: Seq<char>,
    persisted: bool,
) -> PersistCall {
    if persisted {
        PersistCall::AcquireGate
    } else if index.says(track_uri) is Some && crate::encoding::is_hex(
        index.says(track_uri)->Some_0.file_id_hex,
    ) {
        PersistCall::CheckKept
    } else {
        PersistCall::RemoveEntry
    }
}

impl PersistRun {
    /// Whether no more was fetched than there is, and the looks are counted.
    pub open spec fn wf(self) -> bool {
        &&& self.plan.offset <= self.plan.total
        &&& self.plan.polls < MAX_POLLS
        &&& self.plan.call == PersistCall::FetchRange ==> self.plan.offset < self.plan.total
    }

    /// Begins to keep a track, or to give up one. A track that the index names
    /// no file for has none to give up.
    pub fn set_track_persisted(index: &OfflineIndex, track_uri: &str, persisted: bool) -> (run:
        PersistRun)
        requires
            index.wf(),
            !persisted ==> index.names_a_file(track_uri@),
        ensures
            run.wf(),
            run.plan.total == 0,
            run.plan.offset == 0,
            run.plan.polls == 0,
            run.plan.call == first_call(*index, track_uri@, persisted),
            run.plan.call == PersistCall::CheckKept ==> run.file.0@ == crate::encoding::hex_bytes(
                index.says(track_uri@)->Some_0.file_id_hex,
            ),
    {
        let mut file = FileId([0; 20]);
        let call = if persisted {
            PersistCall::AcquireGate
        } else {
            match index.kept_file(track_uri) {
                Some(kept) => {
                    file = kept;
                    PersistCall::CheckKept
                },
                None => PersistCall::RemoveEntry,
            }
        };
        PersistRun {
            plan: PersistPlan {
                call,
                format: AudioFileFormat::OggVorbis96,
                total: 0,
                offset: 0,
                polls: 0,
            },
            file,
        }
    }

    /// The range of the file that is to be fetched: where it starts and how long
    /// it is.
    pub fn range(&self) -> (range: (usize, usize))
        requires
            self.wf(),
        ensures
            range.0 == self.plan.offset,
            range.1 == next_len(self.plan),
    {
        let remaining: usize = self.plan.total - self.plan.offset;
        if remaining < CHUNK_LEN {
            (self.plan.offset, remaining)
        } else {
            (self.plan.offset, CHUNK_LEN)
        }
    }

    /// Goes on with fetching.
    fn fetch<E>(&mut self) -> (step: PersistStep<E>)
        requires
            old(self).plan.offset <= old(self).plan.total,
            old(self).plan.polls < MAX_POLLS,
        ensures
            final(self).wf(),
            final(self).file == old(self).file,
            (final(self).plan, persist_outcome(step)) == fetches::<E>(old(self).plan),
    {
        if self.plan.offset < self.plan.total {
            self.plan.call = PersistCall::FetchRange;
        } else {
            self.plan.call = PersistCall::CheckCached;
        }
        PersistStep::Call
    }

    /// Does what the reply to the call that was due leads to.
    pub fn advance<E>(&mut self, preferred: &[AudioFileFormat; 7], reply: PersistReply<E>) -> (step:
        PersistStep<E>)
        requires
            old(self).wf(),
            reply_fits(old(self).plan.call, reply),
        ensures
            final(self).wf(),
            (final(self).plan, persist_outcome(step)) == persist_step(
                old(self).plan,
                preferred@,
                reply,
            ),
            reply matches PersistReply::Files(files) ==> crate::offline::chosen_file(
                preferred@,
                files@,
            ) matches Some((format, file)) ==> final(self).file == file,
            !(reply is Files) ==> final(self).file == old(self).file,
    {
        match (self.plan.call, reply) {
            (PersistCall::KeepLyrics, _) => {
                self.plan.call = PersistCall::PrefetchLyrics;
                PersistStep::Call
            },
            (PersistCall::PrefetchLyrics, _) => PersistStep::Done,
            (PersistCall::RemoveLyrics, _) => PersistStep::Done,
            (_, PersistReply::Failed(error)) => PersistStep::Failed(error),
            (PersistCall::AcquireGate, _) => {
                self.plan.call = PersistCall::ParseUri;
                PersistStep::Call
            },
            (PersistCall::ParseUri, PersistReply::NotATrack) => PersistStep::Refused(
                ErrorKind::InvalidArgument,
                "track URI is not a playable Spotify track",
            ),
            (PersistCall::ParseUri, _) => {
                self.plan.call = PersistCall::FetchItem;
                PersistStep::Call
            },
            (PersistCall::FetchItem, PersistReply::Files(files)) => match choose_file(
                preferred,
                &files,
            ) {
                None => PersistStep::Refused(
                    ErrorKind::Unavailable,
                    "track has no supported audio file",
                ),
                Some((format, file)) => {
                    self.plan.format = format;
                    self.file = file;
                    self.plan.call = PersistCall::CheckPersisted;
                    PersistStep::Call
                },
            },
            (PersistCall::CheckPersisted, PersistReply::Yes) => {
                self.plan.call = PersistCall::StoreEntry;
                PersistStep::Call
            },
            (PersistCall::CheckPersisted, _) => {
                self.plan.call = PersistCall::OpenFile;
                PersistStep::Call
            },
            (PersistCall::OpenFile, PersistReply::Length(total)) => {
                self.plan.total = total;
                self.plan.offset = 0;
                self.plan.call = PersistCall::RequestKey;
                PersistStep::Call
            },
            (PersistCall::RequestKey, _) => self.fetch(),
            (PersistCall::FetchRange, _) => {
                let (offset, len) = self.range();
                self.plan.offset = offset + len;
                self.fetch()
            },
            (PersistCall::CheckCached, PersistReply::Yes) => {
                self.plan.call = PersistCall::KeepFile;
                PersistStep::Call
            },
            (PersistCall::CheckCached, _) => {
                self.plan.call = PersistCall::Pause;
                PersistStep::Call
            },
            (PersistCall::Pause, _) => {
                if self.plan.polls + 1 >= MAX_POLLS {
                    return PersistStep::Refused(
                        ErrorKind::DeadlineExceeded,
                        "timed out waiting for cached track file",
                    );
                }
                self.plan.polls = self.plan.polls + 1;
                self.plan.call = PersistCall::CheckCached;
                PersistStep::Call
            },
            (PersistCall::KeepFile, _) => {
                self.plan.call = PersistCall::StoreEntry;
                PersistStep::Call
            },
            (PersistCall::StoreEntry, _) => {
                self.plan.call = PersistCall::KeepLyrics;
                PersistStep::Call
            },
            (PersistCall::CheckKept, PersistReply::Yes) => {
                self.plan.call = PersistCall::ReleaseFile;
                PersistStep::Call
            },
            (PersistCall::CheckKept, _) => {
                self.plan.call = PersistCall::RemoveEntry;
                PersistStep::Call
            },
            (PersistCall::ReleaseFile, _) => {
                self.plan.call = PersistCall::RemoveEntry;
                PersistStep::Call
            },
            (PersistCall::RemoveEntry, _) => {
                self.plan.call = PersistCall::RemoveLyrics;
                PersistStep::Call
            },
            _ => PersistStep::Done,
        }
    }
}

/// A file is fetched whole and in order: each range starts where the one before
/// ended, is not empty, is as long as a chunk unless it is the last one, and does
/// not go beyond the end; what follows the last is the look into the cache.
pub proof fn law_a_file_is_fetched_whole<E>(plan: PersistPlan, preferred: Seq<AudioFileFormat>)
    requires
        plan.call == PersistCall::FetchRange,
        plan.offset < plan.total,
    ensures
        ({
            let (after, outcome) = persist_step::<E>(plan, preferred, PersistReply::Done);
            &&& 0 < next_len(plan) <= CHUNK_LEN
            &&& after.offset < after.total ==> next_len(plan) == 262_144
            &&& after.offset == plan.offset + next_len(plan)
            &&& after.offset <= after.total == plan.total
            &&& outcome is Call
            &&& after.call == PersistCall::FetchRange <==> after.offset < after.total
            &&& after.call != PersistCall::FetchRange ==> after.call == PersistCall::CheckCached
        }),
{
}

/// A track is put into the index only once its file is kept: the entry is stored
/// after the file was found kept, or was moved to where files are kept.
pub proof fn law_the_index_follows_the_file<E>(
    plan: PersistPlan,
    preferred: Seq<AudioFileFormat>,
    reply: PersistReply<E>,
)
    requires
        reply_fits(plan.call, reply),
        persist_step(plan, preferred, reply).1 is Call,
        persist_step(plan, preferred, reply).0.call == PersistCall::StoreEntry,
    ensures
        plan.call == PersistCall::CheckPersisted && reply is Yes || plan.call
            == PersistCall::KeepFile && reply is Done,
{
}

/// Whether reply number `i` leads from one of the states to the next.
pub open spec fn is_persist_step<E>(
    preferred: Seq<AudioFileFormat>,
    states: Seq<(PersistPlan, PersistOutcome<E>)>,
    replies: Seq<PersistReply<E>>,
    i: int,
) -> bool {
    &&& states[i].1 is Call
    &&& reply_fits(states[i].0.call, replies[i])
    &&& states[i + 1] == persist_step(states[i].0, preferred, replies[i])
}

/// Whether a run goes through the states, reply by reply, and begins as
/// `set_track_persisted` begins one.
pub open spec fn is_persist_run<E>(
    index: OfflineIndex,
    track_uri: Seq<char>,
    persisted: bool,
    preferred: Seq<AudioFileFormat>,
    states: Seq<(PersistPlan, PersistOutcome<E>)>,
    replies: Seq<PersistReply<E>>,
) -> bool {
    &&& states.len() == replies.len() + 1
    &&& states[0].0.call == first_call(index, track_uri, persisted)
    &&& states[0].0.total == 0 && states[0].0.offset == 0 && states[0].0.polls == 0
    &&& states[0].1 is Call
    &&& forall|i: int|
        0 <= i < replies.len() ==> #[trigger] is_persist_step(preferred, states, replies, i)
}

/// Whether a call was made before state number `n`, and did what it was for.
pub open spec fn was_done<E>(
    states: Seq<(PersistPlan, PersistOutcome<E>)>,
    replies: Seq<PersistReply<E>>,
    n: int,
    call: PersistCall,
) -> bool {
    exists|j: int|
        0 <= j < n && (#[trigger] states[j]).0.call == call && (replies[j] is Done
            || replies[j] is Yes)
}

/// Whether a run has fetched a file whole by state number `n`: it had its key and
/// found the file in the cache.
spec fn has_fetched<E>(
    states: Seq<(PersistPlan, PersistOutcome<E>)>,
    replies: Seq<PersistReply<E>>,
    n: int,
) -> bool {
    &&& was_done(states, replies, n, PersistCall::RequestKey)
    &&& was_done(states, replies, n, PersistCall::CheckCached)
    &&& states[n].0.offset == states[n].0.total
}

/// Whether the file of a run is kept by state number `n`.
spec fn has_kept<E>(
    states: Seq<(PersistPlan, PersistOutcome<E>)>,
    replies: Seq<PersistReply<E>>,
    n: int,
) -> bool {
    ||| was_done(states, replies, n, PersistCall::CheckPersisted)
    ||| was_done(states, replies, n, PersistCall::KeepFile) && has_fetched(states, replies, n)
}

/// What holds wherever a call is due in a run that keeps a track.
spec fn keeps<E>(
    states: Seq<(PersistPlan, PersistOutcome<E>)>,
    replies: Seq<PersistReply<E>>,
    n: int,
) -> bool {
    let plan = states[n].0;
    &&& plan.offset <= plan.total
    &&& plan.polls < MAX_POLLS
    &&& match plan.call {
        PersistCall::AcquireGate => true,
        PersistCall::ParseUri => was_done(states, replies, n, PersistCall::AcquireGate),
        PersistCall::FetchItem => was_done(states, replies, n, PersistCall::AcquireGate)
            && was_done(states, replies, n, PersistCall::ParseUri),
        PersistCall::CheckPersisted => true,
        PersistCall::OpenFile => true,
        PersistCall::RequestKey => plan.offset == 0,
        PersistCall::FetchRange => plan.offset < plan.total && was_done(
            states,
            replies,
            n,
            PersistCall::RequestKey,
        ),
        PersistCall::CheckCached | PersistCall::Pause => plan.offset == plan.total && was_done(
            states,
            replies,
            n,
            PersistCall::RequestKey,
        ),
        PersistCall::KeepFile => has_fetched(states, replies, n),
        PersistCall::StoreEntry => has_kept(states, replies, n),
        PersistCall::KeepLyrics | PersistCall::PrefetchLyrics => has_kept(states, replies, n)
            && was_done(states, replies, n, PersistCall::StoreEntry),
        _ => false,
    }
}

/// What was done by one state was done by a later one.
proof fn lemma_stays_done<E>(
    states: Seq<(PersistPlan, PersistOutcome<E>)>,
    replies: Seq<PersistReply<E>>,
    n: int,
    m: int,
    call: PersistCall,
)
    requires
        n <= m,
    ensures
        was_done(states, replies, n, call) ==> was_done(states, replies, m, call),
{
    if was_done(states, replies, n, call) {
        let j = choose|j: int|
            0 <= j < n && (#[trigger] states[j]).0.call == call && (replies[j] is Done
                || replies[j] is Yes);
        assert(0 <= j < m && states[j].0.call == call);
    }
}

/// What a step of a run did is done after it.
proof fn lemma_step_done<E>(
    states: Seq<(PersistPlan, PersistOutcome<E>)>,
    replies: Seq<PersistReply<E>>,
    n: int,
)
    requires
        n >= 0,
    ensures
        replies[n] is Done || replies[n] is Yes ==> was_done(
            states,
            replies,
            n + 1,
            states[n].0.call,
        ),
        was_done(states, replies, n, PersistCall::AcquireGate) ==> was_done(
            states,
            replies,
            n + 1,
            PersistCall::AcquireGate,
        ),
        was_done(states, replies, n, PersistCall::ParseUri) ==> was_done(
            states,
            replies,
            n + 1,
            PersistCall::ParseUri,
        ),
        was_done(states, replies, n, PersistCall::RequestKey) ==> was_done(
            states,
            replies,
            n + 1,
            PersistCall::RequestKey,
        ),
        was_done(states, replies, n, PersistCall::CheckCached) ==> was_done(
            states,
            replies,
            n + 1,
            PersistCall::CheckCached,
        ),
        was_done(states, replies, n, PersistCall::CheckPersisted) ==> was_done(
            states,
            replies,
            n + 1,
            PersistCall::CheckPersisted,
        ),
        was_done(states, replies, n, PersistCall::KeepFile) ==> was_done(
            states,
            replies,
            n + 1,
            PersistCall::KeepFile,
        ),
        was_done(states, replies, n, PersistCall::StoreEntry) ==> was_done(
            states,
            replies,
            n + 1,
            PersistCall::StoreEntry,
        ),
        was_done(states, replies, n, PersistCall::ReleaseFile) ==> was_done(
            states,
            replies,
            n + 1,
            PersistCall::ReleaseFile,
        ),
        was_done(states, replies, n, PersistCall::RemoveEntry) ==> was_done(
            states,
            replies,
            n + 1,
            PersistCall::RemoveEntry,
        ),
        was_done(states, replies, n, PersistCall::CheckKept) ==> was_done(
            states,
            replies,
            n + 1,
            PersistCall::CheckKept,
        ),
{
    if replies[n] is Done || replies[n] is Yes {
        assert(0 <= n < n + 1 && states[n].0.call == states[n].0.call);
    }
    lemma_stays_done(states, replies, n, n + 1, PersistCall::AcquireGate);
    lemma_stays_done(states, replies, n, n + 1, PersistCall::ParseUri);
    lemma_stays_done(states, replies, n, n + 1, PersistCall::RequestKey);
    lemma_stays_done(states, replies, n, n + 1, PersistCall::CheckCached);
    lemma_stays_done(states, replies, n, n + 1, PersistCall::CheckPersisted);
    lemma_stays_done(states, replies, n, n + 1, PersistCall::KeepFile);
    lemma_stays_done(states, replies, n, n + 1, PersistCall::StoreEntry);
    lemma_stays_done(states, replies, n, n + 1, PersistCall::ReleaseFile);
    lemma_stays_done(states, replies, n, n + 1, PersistCall::RemoveEntry);
    lemma_stays_done(states, replies, n, n + 1, PersistCall::CheckKept);
}

proof fn lemma_keeps<E>(
    index: OfflineIndex,
    track_uri: Seq<char>,
    preferred: Seq<AudioFileFormat>,
    states: Seq<(PersistPlan, PersistOutcome<E>)>,
    replies: Seq<PersistReply<E>>,
    n: int,
)
    requires
        is_persist_run(index, track_uri, true, preferred, states, replies),
        0 <= n < states.len(),
        states[n].1 is Call,
    ensures
        keeps(states, replies, n),
    decreases n,
{
    if n > 0 {
        assert(is_persist_step(preferred, states, replies, n - 1));
        lemma_keeps(index, track_uri, preferred, states, replies, n - 1);
        lemma_step_done(states, replies, n - 1);
    }
}

/// A track whose keeping ends in success is kept. Its entry was put into the
/// index, and that only after its file was found among the kept ones or was moved
/// there; in the second case the file had been fetched to its end, with its key,
/// and seen in the cache. All this came after no other track was being fetched
/// and the address had been read.
pub proof fn law_a_track_that_was_kept_is_kept<E>(
    index: OfflineIndex,
    track_uri: Seq<char>,
    preferred: Seq<AudioFileFormat>,
    states: Seq<(PersistPlan, PersistOutcome<E>)>,
    replies: Seq<PersistReply<E>>,
)
    requires
        is_persist_run(index, track_uri, true, preferred, states, replies),
        states.last().1 is Done,
    ensures
        ({
            let n = replies.len() as int;
            &&& was_done(states, replies, n, PersistCall::StoreEntry)
            &&& was_done(states, replies, n, PersistCall::CheckPersisted) || {
                &&& was_done(states, replies, n, PersistCall::KeepFile)
                &&& was_done(states, replies, n, PersistCall::CheckCached)
                &&& was_done(states, replies, n, PersistCall::RequestKey)
                &&& states.last().0.offset == states.last().0.total
            }
            &&& forall|i: int|
                0 <= i < n ==> (#[trigger] states[i]).0.call != PersistCall::ReleaseFile
                    && states[i].0.call != PersistCall::RemoveEntry && states[i].0.call
                    != PersistCall::RemoveLyrics
        }),
{
    let n = replies.len() as int;
    if n > 0 {
        assert(is_persist_step(preferred, states, replies, n - 1));
        lemma_keeps(index, track_uri, preferred, states, replies, n - 1);
        lemma_step_done(states, replies, n - 1);
        assert(states[n] == states.last());
    }
    assert forall|i: int| 0 <= i < n implies (#[trigger] states[i]).0.call
        != PersistCall::ReleaseFile && states[i].0.call != PersistCall::RemoveEntry
        && states[i].0.call != PersistCall::RemoveLyrics by {
        assert(is_persist_step(preferred, states, replies, i));
        lemma_keeps(index, track_uri, preferred, states, replies, i);
    }
}

/// What holds wherever a call is due in a run that gives a track up.
spec fn gives_up<E>(
    states: Seq<(PersistPlan, PersistOutcome<E>)>,
    replies: Seq<PersistReply<E>>,
    n: int,
) -> bool {
    match states[n].0.call {
        PersistCall::CheckKept => n == 0,
        PersistCall::ReleaseFile => was_done(states, replies, n, PersistCall::CheckKept),
        PersistCall::RemoveEntry => was_done(states, replies, n, PersistCall::CheckKept)
            ==> was_done(states, replies, n, PersistCall::ReleaseFile),
        PersistCall::RemoveLyrics => {
            &&& was_done(states, replies, n, PersistCall::RemoveEntry)
            &&& was_done(states, replies, n, PersistCall::CheckKept) ==> was_done(
                states,
                replies,
                n,
                PersistCall::ReleaseFile,
            )
        },
        _ => false,
    }
}

proof fn lemma_gives_up<E>(
    index: OfflineIndex,
    track_uri: Seq<char>,
    preferred: Seq<AudioFileFormat>,
    states: Seq<(PersistPlan, PersistOutcome<E>)>,
    replies: Seq<PersistReply<E>>,
    n: int,
)
    requires
        is_persist_run(index, track_uri, false, preferred, states, replies),
        0 <= n < states.len(),
        states[n].1 is Call,
    ensures
        gives_up(states, replies, n),
    decreases n,
{
    if n > 0 {
        assert(is_persist_step(preferred, states, replies, n - 1));
        lemma_gives_up(index, track_uri, preferred, states, replies, n - 1);
        lemma_step_done(states, replies, n - 1);
        if was_done(states, replies, n, PersistCall::CheckKept) && states[n - 1].0.call
            != PersistCall::ReleaseFile {
            let j = choose|j: int|
                0 <= j < n && (#[trigger] states[j]).0.call == PersistCall::CheckKept && (
                replies[j] is Done || replies[j] is Yes);
            if j < n - 1 {
                assert(was_done(states, replies, n - 1, PersistCall::CheckKept));
            }
        }
    }
}

/// A track whose giving up ends in success is kept no more: it was taken off the
/// index, and its file, if it was found among the kept ones, was moved back to
/// the cache before that. Nothing is fetched or put into the index.
pub proof fn law_a_track_that_was_given_up_is_kept_no_more<E>(
    index: OfflineIndex,
    track_uri: Seq<char>,
    preferred: Seq<AudioFileFormat>,
    states: Seq<(PersistPlan, PersistOutcome<E>)>,
    replies: Seq<PersistReply<E>>,
)
    requires
        is_persist_run(index, track_uri, false, preferred, states, replies),
        states.last().1 is Done,
    ensures
        ({
            let n = replies.len() as int;
            &&& was_done(states, replies, n, PersistCall::RemoveEntry)
            &&& was_done(states, replies, n, PersistCall::CheckKept) ==> was_done(
                states,
                replies,
                n,
                PersistCall::ReleaseFile,
            )
            &&& forall|i: int|
                0 <= i < n ==> (#[trigger] states[i]).0.call != PersistCall::StoreEntry
                    && states[i].0.call != PersistCall::FetchRange && states[i].0.call
                    != PersistCall::KeepFile
        }),
{
    let n = replies.len() as int;
    if n > 0 {
        assert(is_persist_step(preferred, states, replies, n - 1));
        lemma_gives_up(index, track_uri, preferred, states, replies, n - 1);
        lemma_step_done(states, replies, n - 1);
        if was_done(states, replies, n, PersistCall::CheckKept) {
            let j = choose|j: int|
                0 <= j < n && (#[trigger] states[j]).0.call == PersistCall::CheckKept && (
                replies[j] is Done || replies[j] is Yes);
            assert(j < n - 1);
            assert(was_done(states, replies, n - 1, PersistCall::CheckKept));
        }
    }
    assert forall|i: int| 0 <= i < n implies (#[trigger] states[i]).0.call
        != PersistCall::StoreEntry && states[i].0.call != PersistCall::FetchRange
        && states[i].0.call != PersistCall::KeepFile by {
        assert(is_persist_step(preferred, states, replies, i));
        lemma_gives_up(index, track_uri, preferred, states, replies, i);
    }
}

/// A track that is to be given up is looked for among the kept ones exactly if
/// the index names a file for it.
pub proof fn law_a_run_begins_with_what_the_index_says(
    index: OfflineIndex,
    track_uri: Seq<char>,
    persisted: bool,
)
    ensures
        ({
            let call = first_call(index, track_uri, persisted);
            &&& call == PersistCall::AcquireGate <==> persisted
            &&& call == PersistCall::CheckKept <==> !persisted && (index.says(track_uri) matches
                Some(entry) && crate::encoding::is_hex(entry.file_id_hex))
            &&& call == PersistCall::AcquireGate || call == PersistCall::CheckKept || call
                == PersistCall::RemoveEntry
        }),
{
}

/// A call that fails ends the run with its error, and only lyrics may fail
/// without an effect. What ends a run otherwise is a refusal, and that comes only
/// of an address that is not one of a track, of a track without files, and of the
/// hundredth look into the cache that finds nothing.
pub proof fn law_a_run_fails_only_for_cause<E>(
    plan: PersistPlan,
    preferred: Seq<AudioFileFormat>,
    reply: PersistReply<E>,
)
    requires
        reply_fits(plan.call, reply),
        plan.polls < 100,
    ensures
        ({
            let (after, outcome) = persist_step(plan, preferred, reply);
            let lyrics = plan.call == PersistCall::KeepLyrics || plan.call
                == PersistCall::PrefetchLyrics || plan.call == PersistCall::RemoveLyrics;
            &&& outcome is Failed <==> reply is Failed && !lyrics
            &&& reply matches PersistReply::Failed(error) ==> !lyrics ==> outcome
                == PersistOutcome::Failed(error)
            &&& lyrics ==> outcome is Done || outcome is Call
            &&& outcome is Refused <==> {
                ||| plan.call == PersistCall::ParseUri && reply is NotATrack
                ||| plan.call == PersistCall::FetchItem && reply is Files
                    && crate::offline::chosen_file(preferred, reply->Files_0@) is None
                ||| plan.call == PersistCall::Pause && plan.polls + 1 == 100
            }
            &&& outcome matches PersistOutcome::Refused(kind, message) ==> {
                &&& plan.call == PersistCall::ParseUri ==> kind == ErrorKind::InvalidArgument
                &&& plan.call == PersistCall::FetchItem ==> kind == ErrorKind::Unavailable
                &&& plan.call == PersistCall::Pause ==> kind == ErrorKind::DeadlineExceeded
            }
            &&& outcome is Done ==> plan.call == PersistCall::PrefetchLyrics || plan.call
                == PersistCall::RemoveLyrics
            &&& plan.call == PersistCall::Pause && outcome is Call ==> after.polls == plan.polls + 1
                && after.call == PersistCall::CheckCached
            &&& plan.call != PersistCall::Pause ==> after.polls == plan.polls
            &&& plan.call != PersistCall::FetchItem ==> after.format == plan.format
            &&& plan.call == PersistCall::FetchItem && outcome is Call ==> Some(after.format) == (
            match crate::offline::chosen_file(preferred, reply->Files_0@) {
                Some((format, file)) => Some(format),
                None => None,
            })
            &&& plan.call == PersistCall::OpenFile && reply is Length ==> after.total
                == reply->Length_0 && after.offset == 0
            &&& plan.call != PersistCall::OpenFile ==> after.total == plan.total
            &&& plan.call != PersistCall::OpenFile && plan.call != PersistCall::FetchRange
                ==> after.offset == plan.offset
        }),
{
}

/// A file that is kept already is not fetched again, and one that is not is
/// opened and fetched.
pub proof fn law_a_kept_file_is_not_fetched_again<E>(
    plan: PersistPlan,
    preferred: Seq<AudioFileFormat>,
    reply: PersistReply<E>,
)
    requires
        reply_fits(plan.call, reply),
    ensures
        ({
            let (after, outcome) = persist_step(plan, preferred, reply);
            &&& outcome is Call && after.call == PersistCall::OpenFile <==> plan.call
                == PersistCall::CheckPersisted && reply is No
            &&& outcome is Call && after.call == PersistCall::KeepFile <==> plan.call
                == PersistCall::CheckCached && reply is Yes
            &&& outcome is Call && after.call == PersistCall::Pause <==> plan.call
                == PersistCall::CheckCached && reply is No
            &&& outcome is Call && after.call == PersistCall::ReleaseFile <==> plan.call
                == PersistCall::CheckKept && reply is Yes
            &&& outcome is Call && after.call == PersistCall::KeepLyrics <==> plan.call
                == PersistCall::StoreEntry && reply is Done
            &&& outcome is Call && after.call == PersistCall::PrefetchLyrics <==> plan.call
                == PersistCall::KeepLyrics
            &&& outcome is Call && after.call == PersistCall::RemoveLyrics <==> plan.call
                == PersistCall::RemoveEntry && reply is Done
        }),
{
}

/// A step that is shown tells what it was: a failure keeps its error, and a
/// refusal its kind and its words.
pub proof fn law_a_step_shows_its_outcome<E>(step: PersistStep<E>)
    ensures
        persist_outcome(step) is Call <==> step is Call,
        persist_outcome(step) is Done <==> step is Done,
        persist_outcome(step) is Failed <==> step is Failed,
        step matches PersistStep::Failed(error) ==> (persist_outcome(
            step,
        ) matches PersistOutcome::Failed(shown) && shown == error),
        persist_outcome(step) is Refused <==> step is Refused,
        step matches PersistStep::Refused(kind, message) ==> (persist_outcome(
            step,
        ) matches PersistOutcome::Refused(shown, words) && shown == kind && words == message@),
{
}

} // verus!
