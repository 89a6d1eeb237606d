//! The loop that runs a player: what each command, each credential, each attempt
//! to connect and each end of a connection leads to. The loop itself and the
//! calls are elsewhere.
use crate::config::Credentials;
use crate::events::RunnerState;
use crate::offline::{OfflineIndex, OfflineLoad};
use crate::text;
use vstd::prelude::*;

verus! {

/// The delay before the first attempt to connect again, in milliseconds.
pub const FIRST_BACKOFF_MS: u64 = 1_000;

/// The longest delay before an attempt to connect again, in milliseconds.
pub const MAX_BACKOFF_MS: u64 = 30_000;

/// The size of the audio cache.
pub const CACHE_SIZE_LIMIT: u64 = 524_288_000;

/// What a frontend asks for. `P` and `A` are what the answers to two of the
/// commands are handed to.
#[derive(Debug)]
#[allow(inconsistent_fields)]
pub enum LibrespotCommand<P, A> {
    Shutdown,
    Load {
        context_uri: String,
        start_from_uri: Option<String>,
        ordered_track_uris: Option<Vec<String>>,
        play: bool,
    },
    Play,
    Pause,
    Next,
    Prev,
    SetVolume(u16),
    Seek(u32),
    SetShuffle(bool),
    SetRepeatContext(bool),
    SetRepeatTrack(bool),
    StartDiscovery,
    UpdateCredentials { username: String, auth_data: String },
    SetTrackPersisted { track_uri: String, persisted: bool, result_tx: P },
    GetAppData { kind: i32, argument: String, result_tx: A },
    Stop,
}

/// What is asked of the connection when something is to be played.
#[derive(Debug)]
pub struct LoadRequest {
    pub context_uri: String,
    /// The tracks in their order, where that differs from the context.
    pub tracks: Option<Vec<String>>,
    /// The track to begin with.
    pub playing_track: String,
    pub start_playing: bool,
    pub seek_to: u32,
    pub shuffle: bool,
    pub repeat: bool,
    pub repeat_track: bool,
}

/// What the loop is to do.
#[derive(Debug)]
pub enum RunnerAction<P, A> {
    /// Leave the loop.
    Exit,
    StopPlayer,
    StartPlayer,
    PausePlayer,
    SeekPlayer(u32),
    SetMixerVolume(u16),
    EmitVolume(u16),
    ActivateConnection,
    ShutDownConnection,
    /// Forget the task of the connection.
    DropConnectionTask,
    NextTrack,
    PreviousTrack,
    SetShuffle(bool),
    SetRepeat(bool),
    SetRepeatTrack(bool),
    LoadByConnection(LoadRequest),
    /// Play a track that is kept, from its start.
    LoadOffline(OfflineLoad, bool),
    /// Play a track without a connection, from its start.
    LoadDirectly(String, bool),
    KeepTrack(String, bool, P),
    AnswerAppData(i32, String, A),
    LaunchDiscovery,
    /// Make a session in place of one that is no longer valid.
    RenewSession,
    /// Connect with the credentials that the loop holds.
    Connect,
    EmitConnected,
    EmitDisconnected,
}

/// What the loop holds.
#[derive(Debug)]
pub struct RunnerLoop {
    /// Whether there is a connection.
    pub connected: bool,
    /// Whether the task of a connection runs.
    pub has_task: bool,
    pub has_discovery: bool,
    pub last_creds: Option<Credentials>,
    /// Whether an attempt to connect is due.
    pub connecting: bool,
    /// When the next attempt to connect is due, in milliseconds.
    pub next_connect_attempt: u64,
    /// The delay after an attempt that fails, in milliseconds.
    pub connect_backoff: u64,
}

/// The delay after a delay.
pub open spec fn longer_backoff(backoff: u64) -> int {
    if backoff * 2 > MAX_BACKOFF_MS {
        MAX_BACKOFF_MS as int
    } else {
        backoff * 2
    }
}

/// The delay after a number of failures in a row.
pub open spec fn backoff_after(failures: nat) -> int
    decreases failures,
{
    if failures == 0 {
        FIRST_BACKOFF_MS as int
    } else {
        longer_backoff(backoff_after((failures - 1) as nat) as u64)
    }
}

/// The loop after an attempt to connect that failed.
pub open spec fn after_failure(before: RunnerLoop, now: u64) -> RunnerLoop {
    RunnerLoop {
        next_connect_attempt: (now + before.connect_backoff) as u64,
        connect_backoff: longer_backoff(before.connect_backoff) as u64,
        ..before
    }
}

/// The loop after an attempt to connect that succeeded.
pub open spec fn after_success(before: RunnerLoop, now: u64) -> RunnerLoop {
    RunnerLoop {
        connected: true,
        has_task: true,
        connecting: false,
        next_connect_attempt: now,
        connect_backoff: FIRST_BACKOFF_MS,
        ..before
    }
}

/// The loop after the task of a connection ended. Where there are credentials
/// this counts as a failure, and a new connection is sought.
pub open spec fn after_task_end(before: RunnerLoop, now: u64) -> RunnerLoop {
    let ended = RunnerLoop { connected: false, has_task: false, ..before };
    if before.last_creds is Some {
        after_failure(RunnerLoop { connecting: true, ..ended }, now)
    } else {
        ended
    }
}

/// What can happen to the loop, as far as the times to connect go.
pub enum LoopEvent {
    ConnectFailed(u64),
    Connected(u64),
    TaskEnded(u64),
    /// A command, news of discovery, or the beginning of an attempt to connect.
    Other,
}

/// Whether the loop is what an event makes of it.
pub open spec fn follows(before: RunnerLoop, event: LoopEvent, after: RunnerLoop) -> bool {
    match event {
        LoopEvent::ConnectFailed(now) => after == after_failure(before, now),
        LoopEvent::Connected(now) => after == after_success(before, now),
        LoopEvent::TaskEnded(now) => after == after_task_end(before, now),
        LoopEvent::Other => {
            &&& after.connect_backoff == before.connect_backoff
            &&& after.next_connect_attempt == before.next_connect_attempt
            &&& before.last_creds is Some ==> after.last_creds is Some
        },
    }
}

/// Whether delays can be added to the time of an event.
pub open spec fn has_time(event: LoopEvent) -> bool {
    match event {
        LoopEvent::ConnectFailed(now) | LoopEvent::TaskEnded(now) => now + MAX_BACKOFF_MS
            <= u64::MAX,
        _ => true,
    }
}

/// Whether event number `i` leads from one of the states to the next.
pub open spec fn is_step(states: Seq<RunnerLoop>, events: Seq<LoopEvent>, i: int) -> bool {
    has_time(events[i]) && follows(states[i], events[i], states[i + 1])
}

/// Whether the loop goes through the states, event by event.
pub open spec fn is_run(states: Seq<RunnerLoop>, events: Seq<LoopEvent>) -> bool {
    &&& states.len() == events.len() + 1
    &&& forall|i: int| 0 <= i < events.len() ==> #[trigger] is_step(states, events, i)
}

/// The setbacks since the last success, or since the beginning.
pub open spec fn setbacks(events: Seq<LoopEvent>) -> nat
    decreases events.len(),
{
    if events.len() == 0 {
        0
    } else {
        match events.last() {
            LoopEvent::ConnectFailed(_) | LoopEvent::TaskEnded(_) => setbacks(events.drop_last())
                + 1,
            LoopEvent::Connected(_) => 0,
            LoopEvent::Other => setbacks(events.drop_last()),
        }
    }
}

/// The time of the last setback since the last success.
pub open spec fn last_setback(events: Seq<LoopEvent>) -> u64
    decreases events.len(),
{
    if events.len() == 0 {
        0
    } else {
        match events.last() {
            LoopEvent::ConnectFailed(now) | LoopEvent::TaskEnded(now) => now,
            LoopEvent::Connected(_) => 0,
            LoopEvent::Other => last_setback(events.drop_last()),
        }
    }
}

/// What is done when it is time to connect.
pub open spec fn connect_actions<P, A>(session_invalid: bool, connected: bool) -> Seq<
    RunnerAction<P, A>,
> {
    (if session_invalid {
        seq![RunnerAction::<P, A>::RenewSession]
    } else {
        Seq::empty()
    }) + (if connected {
        seq![RunnerAction::<P, A>::ShutDownConnection]
    } else {
        Seq::empty()
    }) + seq![RunnerAction::<P, A>::Connect]
}

impl RunnerLoop {
    /// Whether the delay is within its bounds, a connection has a task, and a
    /// connection is sought wherever there are credentials and no task.
    pub open spec fn wf(self) -> bool {
        &&& FIRST_BACKOFF_MS <= self.connect_backoff <= MAX_BACKOFF_MS
        &&& self.connected ==> self.has_task
        &&& self.last_creds is Some && !self.has_task ==> self.connecting
    }

    /// The loop before its first round.
    pub fn new(initial_creds: Option<Credentials>, has_discovery: bool, now: u64) -> (this:
        RunnerLoop)
        ensures
            this.wf(),
            !this.connected,
            !this.has_task,
            this.has_discovery == has_discovery,
            this.last_creds == initial_creds,
            this.connecting == (initial_creds is Some),
            this.next_connect_attempt == now,
            this.connect_backoff == FIRST_BACKOFF_MS,
    {
        let connecting = initial_creds.is_some();
        RunnerLoop {
            connected: false,
            has_task: false,
            has_discovery,
            last_creds: initial_creds,
            connecting,
            next_connect_attempt: now,
            connect_backoff: FIRST_BACKOFF_MS,
        }
    }

    /// Whether an attempt to connect is due at its time.
    pub fn connect_due(&self) -> (due: bool)
        ensures
            due == (self.connecting && self.last_creds is Some),
    {
        self.connecting && self.last_creds.is_some()
    }

    /// The delay grows after a failure.
    fn back_off(&mut self, now: u64)
        requires
            old(self).connect_backoff <= MAX_BACKOFF_MS,
            now + MAX_BACKOFF_MS <= u64::MAX,
        ensures
            *final(self) == after_failure(*old(self), now),
    {
        self.next_connect_attempt = now + self.connect_backoff;
        let doubled: u64 = self.connect_backoff * 2;
        self.connect_backoff = if doubled > MAX_BACKOFF_MS {
            MAX_BACKOFF_MS
        } else {
            doubled
        };
    }

    /// Discovery brought credentials, or ended.
    pub fn discovered(&mut self, credentials: Option<Credentials>)
        requires
            old(self).wf(),
        ensures
            final(self).wf(),
            follows(*old(self), LoopEvent::Other, *final(self)),
            *final(self) == match credentials {
                Some(_) => RunnerLoop { last_creds: credentials, connecting: true, ..*old(self) },
                None => *old(self),
            },
    {
        if credentials.is_some() {
            self.last_creds = credentials;
            self.connecting = true;
        }
    }

    /// Discovery was launched, or could not be.
    pub fn discovery_launched(&mut self, launched: bool)
        requires
            old(self).wf(),
        ensures
            final(self).wf(),
            follows(*old(self), LoopEvent::Other, *final(self)),
            *final(self) == (RunnerLoop { has_discovery: launched, ..*old(self) }),
    {
        self.has_discovery = launched;
    }

    /// It is time to connect: a session that is no longer valid is renewed, a
    /// connection that there is is shut down, and a new one is made.
    pub fn begin_connect<P, A>(&mut self, session_invalid: bool) -> (actions: Vec<
        RunnerAction<P, A>,
    >)
        requires
            old(self).wf(),
            old(self).connecting,
            old(self).last_creds is Some,
        ensures
            final(self).wf(),
            follows(*old(self), LoopEvent::Other, *final(self)),
            *final(self) == (RunnerLoop { connected: false, ..*old(self) }),
            actions@ == connect_actions::<P, A>(session_invalid, old(self).connected),
    {
        let mut actions = Vec::new();
        if session_invalid {
            actions.push(RunnerAction::RenewSession);
        }
        if self.connected {
            actions.push(RunnerAction::ShutDownConnection);
            self.connected = false;
        }
        actions.push(RunnerAction::Connect);
        actions
    }

    /// An attempt to connect succeeded or failed.
    pub fn end_connect<P, A>(&mut self, succeeded: bool, now: u64) -> (actions: Vec<
        RunnerAction<P, A>,
    >)
        requires
            old(self).wf(),
            old(self).connecting,
            now + MAX_BACKOFF_MS <= u64::MAX,
        ensures
            final(self).wf(),
            succeeded ==> follows(*old(self), LoopEvent::Connected(now), *final(self)) && actions@
                == seq![RunnerAction::<P, A>::EmitConnected],
            !succeeded ==> follows(*old(self), LoopEvent::ConnectFailed(now), *final(self))
                && actions@.len() == 0,
    {
        let mut actions = Vec::new();
        if succeeded {
            self.connected = true;
            self.has_task = true;
            self.connect_backoff = FIRST_BACKOFF_MS;
            self.next_connect_attempt = now;
            actions.push(RunnerAction::EmitConnected);
            self.connecting = false;
        } else {
            self.back_off(now);
        }
        actions
    }

    /// The task of a connection ended.
    pub fn task_ended<P, A>(&mut self, now: u64) -> (actions: Vec<RunnerAction<P, A>>)
        requires
            old(self).wf(),
            now + MAX_BACKOFF_MS <= u64::MAX,
        ensures
            final(self).wf(),
            actions@ == seq![RunnerAction::<P, A>::EmitDisconnected],
            follows(*old(self), LoopEvent::TaskEnded(now), *final(self)),
    {
        self.has_task = false;
        self.connected = false;
        let mut actions = Vec::new();
        actions.push(RunnerAction::EmitDisconnected);
        if self.last_creds.is_some() {
            self.connecting = true;
            self.back_off(now);
        }
        actions
    }
}

/// The track that a command to load something begins with.
pub open spec fn load_target(context_uri: String, start_from_uri: Option<String>) -> String {
    match start_from_uri {
        Some(uri) => uri,
        None => context_uri,
    }
}

/// What is asked of the connection for a command to load something.
pub open spec fn load_request(
    state: RunnerState,
    context_uri: String,
    start_from_uri: Option<String>,
    ordered_track_uris: Option<Vec<String>>,
    play: bool,
) -> LoadRequest {
    LoadRequest {
        context_uri,
        tracks: match ordered_track_uris {
            Some(tracks) => if tracks@.len() > 0 {
                Some(tracks)
            } else {
                None
            },
            None => None,
        },
        playing_track: load_target(context_uri, start_from_uri),
        start_playing: play,
        seek_to: 0,
        shuffle: state.shuffle,
        repeat: state.repeat == 1,
        repeat_track: state.repeat == 2,
    }
}

/// What the loop does for a command other than one to load something.
pub open spec fn simple_actions<P, A>(this: RunnerLoop, command: LibrespotCommand<P, A>) -> Seq<
    RunnerAction<P, A>,
> {
    let connected = this.connected;
    match command {
        LibrespotCommand::Shutdown => if connected {
            seq![
                RunnerAction::StopPlayer,
                RunnerAction::ShutDownConnection,
                RunnerAction::Exit,
            ]
        } else {
            seq![RunnerAction::StopPlayer, RunnerAction::Exit]
        },
        LibrespotCommand::Stop => seq![RunnerAction::StopPlayer],
        LibrespotCommand::Play => if connected {
            seq![RunnerAction::ActivateConnection, RunnerAction::StartPlayer]
        } else {
            seq![RunnerAction::StartPlayer]
        },
        LibrespotCommand::Pause => seq![RunnerAction::PausePlayer],
        LibrespotCommand::Next => if connected {
            seq![RunnerAction::ActivateConnection, RunnerAction::NextTrack]
        } else {
            Seq::empty()
        },
        LibrespotCommand::Prev => if connected {
            seq![RunnerAction::ActivateConnection, RunnerAction::PreviousTrack]
        } else {
            Seq::empty()
        },
        LibrespotCommand::Seek(position) => seq![RunnerAction::SeekPlayer(position)],
        LibrespotCommand::SetVolume(volume) => seq![
            RunnerAction::SetMixerVolume(volume),
            RunnerAction::EmitVolume(volume),
        ],
        LibrespotCommand::SetShuffle(enabled) => if connected {
            seq![RunnerAction::SetShuffle(enabled)]
        } else {
            Seq::empty()
        },
        LibrespotCommand::SetRepeatContext(enabled) => if connected {
            seq![RunnerAction::SetRepeat(enabled)]
        } else {
            Seq::empty()
        },
        LibrespotCommand::SetRepeatTrack(enabled) => if connected {
            seq![RunnerAction::SetRepeatTrack(enabled)]
        } else {
            Seq::empty()
        },
        LibrespotCommand::StartDiscovery => if this.has_discovery {
            Seq::empty()
        } else {
            seq![RunnerAction::LaunchDiscovery]
        },
        LibrespotCommand::UpdateCredentials { username, auth_data } => if connected {
            seq![RunnerAction::ShutDownConnection, RunnerAction::DropConnectionTask]
        } else {
            seq![RunnerAction::DropConnectionTask]
        },
        LibrespotCommand::SetTrackPersisted { track_uri, persisted, result_tx } => seq![
            RunnerAction::KeepTrack(track_uri, persisted, result_tx),
        ],
        LibrespotCommand::GetAppData { kind, argument, result_tx } => seq![
            RunnerAction::AnswerAppData(kind, argument, result_tx),
        ],
        LibrespotCommand::Load { context_uri, start_from_uri, ordered_track_uris, play } =>
        Seq::empty(),
    }
}

/// Whether a track is played from what is kept, and with what.
pub open spec fn plays_offline<P, A>(
    action: RunnerAction<P, A>,
    index: OfflineIndex,
    track_uri: Seq<char>,
    play: bool,
) -> bool {
    match action {
        RunnerAction::LoadOffline(load, start) => {
            let entry = index.says(track_uri)->Some_0;
            &&& start == play
            &&& load.track_uri@ == track_uri
            &&& load.file_id.0@ == crate::encoding::hex_bytes(entry.file_id_hex)
            &&& load.format == entry.format
            &&& load.name@ == entry.name
            &&& load.artist@ == entry.artist
            &&& load.album@ == entry.album
            &&& load.cover_url@ == entry.cover_url
            &&& load.duration_ms == entry.duration_ms
            &&& load.is_explicit == entry.is_explicit
        },
        _ => false,
    }
}

/// Whether a track can be played from what is kept.
pub open spec fn can_play_offline(
    index: OfflineIndex,
    track_uri: Seq<char>,
    uri_valid: bool,
    known_formats: Seq<i32>,
) -> bool {
    uri_valid && index.says(track_uri) is Some && crate::offline::is_playable(
        index.says(track_uri)->Some_0,
        known_formats,
    )
}

/// Whether a command to load something asks for a single track by itself, which
/// is played from what is kept, if it is, even where there is a connection.
pub open spec fn is_direct(context_uri: String, start_from_uri: Option<String>) -> bool {
    start_from_uri is None && text::occurs_at(context_uri@, "spotify:track:"@, 0)
}

/// What a runner remembers once something is loaded: a place at the beginning,
/// from where the audio is by then.
pub open spec fn loaded_state(
    state: RunnerState,
    context_valid: bool,
    write_pos: usize,
) -> RunnerState {
    if context_valid {
        RunnerState { position_ms: 0, sync_write_pos: write_pos, ..state }
    } else {
        state
    }
}

/// Whether actions are what a command to load something leads to.
pub open spec fn is_load_answer<P, A>(
    this: RunnerLoop,
    state: RunnerState,
    index: OfflineIndex,
    known_formats: Seq<i32>,
    context_uri: String,
    start_from_uri: Option<String>,
    ordered_track_uris: Option<Vec<String>>,
    play: bool,
    context_valid: bool,
    target_valid: bool,
    actions: Seq<RunnerAction<P, A>>,
) -> bool {
    let target = load_target(context_uri, start_from_uri);
    let offline = can_play_offline(index, target@, target_valid, known_formats);
    if !context_valid {
        actions.len() == 0
    } else if offline && (is_direct(context_uri, start_from_uri) || !this.connected) {
        &&& actions.len() == 2
        &&& actions[0] == RunnerAction::<P, A>::StopPlayer
        &&& plays_offline(actions[1], index, target@, play)
    } else if this.connected {
        actions == seq![
            RunnerAction::<P, A>::StopPlayer,
            RunnerAction::ActivateConnection,
            RunnerAction::LoadByConnection(
                load_request(state, context_uri, start_from_uri, ordered_track_uris, play),
            ),
        ]
    } else if target_valid {
        actions == seq![
            RunnerAction::<P, A>::StopPlayer,
            RunnerAction::LoadDirectly(target, play),
        ]
    } else {
        actions == seq![RunnerAction::<P, A>::StopPlayer]
    }
}

/// Whether the loop is what a command other than one to load something makes of
/// it.
pub open spec fn is_commanded<P, A>(
    before: RunnerLoop,
    command: LibrespotCommand<P, A>,
    after: RunnerLoop,
) -> bool {
    match command {
        LibrespotCommand::UpdateCredentials { username, auth_data } => {
            &&& after.last_creds matches Some(creds) && creds.username == Some(username)
                && creds.auth_type == crate::config::AuthenticationType::UserPass
                && creds.auth_data@ == vstd::utf8::encode_utf8(auth_data@)
            &&& after == (RunnerLoop {
                last_creds: after.last_creds,
                connecting: true,
                connected: false,
                has_task: false,
                ..before
            })
        },
        LibrespotCommand::Shutdown => after == (RunnerLoop { connected: false, ..before }),
        _ => after == before,
    }
}

/// What a runner remembers after a command other than one to load something.
pub open spec fn commanded_state<P, A>(
    state: RunnerState,
    command: LibrespotCommand<P, A>,
) -> RunnerState {
    match command {
        LibrespotCommand::SetVolume(volume) => RunnerState { volume, ..state },
        _ => state,
    }
}

impl RunnerLoop {
    /// What a command other than one to load something leads to.
    pub fn handle_command<P, A>(
        &mut self,
        state: &mut RunnerState,
        command: LibrespotCommand<P, A>,
    ) -> (actions: Vec<RunnerAction<P, A>>)
        requires
            old(self).wf(),
            !(command is Load),
        ensures
            final(self).wf(),
            follows(*old(self), LoopEvent::Other, *final(self)),
            actions@ == simple_actions(*old(self), command),
            *final(state) == commanded_state(*old(state), command),
            is_commanded(*old(self), command, *final(self)),
    {
        let mut actions: Vec<RunnerAction<P, A>> = Vec::new();
        match command {
            LibrespotCommand::Shutdown => {
                actions.push(RunnerAction::StopPlayer);
                if self.connected {
                    actions.push(RunnerAction::ShutDownConnection);
                    self.connected = false;
                }
                actions.push(RunnerAction::Exit);
            },
            LibrespotCommand::Stop => {
                actions.push(RunnerAction::StopPlayer);
            },
            LibrespotCommand::Play => {
                if self.connected {
                    actions.push(RunnerAction::ActivateConnection);
                }
                actions.push(RunnerAction::StartPlayer);
            },
            LibrespotCommand::Pause => {
                actions.push(RunnerAction::PausePlayer);
            },
            LibrespotCommand::Next => {
                if self.connected {
                    actions.push(RunnerAction::ActivateConnection);
                    actions.push(RunnerAction::NextTrack);
                }
            },
            LibrespotCommand::Prev => {
                if self.connected {
                    actions.push(RunnerAction::ActivateConnection);
                    actions.push(RunnerAction::PreviousTrack);
                }
            },
            LibrespotCommand::Seek(position) => {
                actions.push(RunnerAction::SeekPlayer(position));
            },
            LibrespotCommand::SetVolume(volume) => {
                actions.push(RunnerAction::SetMixerVolume(volume));
                state.volume = volume;
                actions.push(RunnerAction::EmitVolume(volume));
            },
            LibrespotCommand::SetShuffle(enabled) => {
                if self.connected {
                    actions.push(RunnerAction::SetShuffle(enabled));
                }
            },
            LibrespotCommand::SetRepeatContext(enabled) => {
                if self.connected {
                    actions.push(RunnerAction::SetRepeat(enabled));
                }
            },
            LibrespotCommand::SetRepeatTrack(enabled) => {
                if self.connected {
                    actions.push(RunnerAction::SetRepeatTrack(enabled));
                }
            },
            LibrespotCommand::StartDiscovery => {
                if !self.has_discovery {
                    actions.push(RunnerAction::LaunchDiscovery);
                }
            },
            LibrespotCommand::UpdateCredentials { username, auth_data } => {
                self.last_creds = Some(Credentials::with_password(username, auth_data.as_str()));
                self.connecting = true;
                if self.connected {
                    actions.push(RunnerAction::ShutDownConnection);
                    self.connected = false;
                }
                self.has_task = false;
                actions.push(RunnerAction::DropConnectionTask);
            },
            LibrespotCommand::SetTrackPersisted { track_uri, persisted, result_tx } => {
                actions.push(RunnerAction::KeepTrack(track_uri, persisted, result_tx));
            },
            LibrespotCommand::GetAppData { kind, argument, result_tx } => {
                actions.push(RunnerAction::AnswerAppData(kind, argument, result_tx));
            },
            LibrespotCommand::Load { .. } => {},
        }
        assert(actions@ =~= simple_actions(*old(self), command));
        actions
    }

    /// What a command to load something leads to. `context_valid` and
    /// `target_valid` say whether the address of the context and that of the
    /// track to begin with are valid.
    pub fn handle_load<P, A>(
        &self,
        state: &mut RunnerState,
        index: &OfflineIndex,
        known_formats: &[i32],
        write_pos: usize,
        context_uri: String,
        start_from_uri: Option<String>,
        ordered_track_uris: Option<Vec<String>>,
        play: bool,
        context_valid: bool,
        target_valid: bool,
    ) -> (actions: Vec<RunnerAction<P, A>>)
        requires
            self.wf(),
            index.wf(),
            context_valid && target_valid && (is_direct(context_uri, start_from_uri)
                || !self.connected) ==> index.names_a_file(
                load_target(context_uri, start_from_uri)@,
            ),
        ensures
            *final(state) == loaded_state(*old(state), context_valid, write_pos),
            is_load_answer(
                *self,
                *old(state),
                *index,
                known_formats@,
                context_uri,
                start_from_uri,
                ordered_track_uris,
                play,
                context_valid,
                target_valid,
                actions@,
            ),
            forall|i: int|
                0 <= i < actions@.len() ==> match #[trigger] actions@[i] {
                    RunnerAction::LoadByConnection(request) => {
                        &&& self.connected
                        &&& request.start_playing == play
                        &&& request.seek_to == 0
                        &&& request.context_uri == context_uri
                        &&& start_from_uri matches Some(uri) ==> request.playing_track == uri
                        &&& start_from_uri is None ==> request.playing_track == context_uri
                        &&& request.shuffle == old(state).shuffle
                        &&& request.repeat == (old(state).repeat == 1)
                        &&& request.repeat_track == (old(state).repeat == 2)
                    },
                    RunnerAction::LoadOffline(load, start) => {
                        &&& start == play
                        &&& start_from_uri matches Some(uri) ==> load.track_uri@ == uri@
                        &&& start_from_uri is None ==> load.track_uri@ == context_uri@
                    },
                    RunnerAction::LoadDirectly(uri, start) => {
                        &&& !self.connected
                        &&& start == play
                        &&& start_from_uri matches Some(given) ==> uri == given
                        &&& start_from_uri is None ==> uri == context_uri
                    },
                    _ => true,
                },
    {
        let mut actions: Vec<RunnerAction<P, A>> = Vec::new();
        if !context_valid {
            return actions;
        }
        actions.push(RunnerAction::StopPlayer);
        state.position_ms = 0;
        state.sync_write_pos = write_pos;
        let direct = start_from_uri.is_none() && text::starts_with(
            context_uri.as_str(),
            "spotify:track:",
        );
        let target = match start_from_uri {
            Some(uri) => uri,
            None => context_uri.clone(),
        };
        if target_valid && (direct || !self.connected) {
            if let Some(load) = index.offline_track(target.as_str(), true, known_formats) {
                actions.push(RunnerAction::LoadOffline(load, play));
                return actions;
            }
        }
        if self.connected {
            actions.push(RunnerAction::ActivateConnection);
            let tracks = match ordered_track_uris {
                Some(tracks) => if tracks.len() > 0 {
                    Some(tracks)
                } else {
                    None
                },
                None => None,
            };
            let request = LoadRequest {
                context_uri,
                tracks,
                playing_track: target,
                start_playing: play,
                seek_to: 0,
                shuffle: state.shuffle,
                repeat: state.repeat == 1,
                repeat_track: state.repeat == 2,
            };
            let ghost asked = request;
            actions.push(RunnerAction::LoadByConnection(request));
            assert(actions@ =~= seq![
                RunnerAction::<P, A>::StopPlayer,
                RunnerAction::ActivateConnection,
                RunnerAction::LoadByConnection(asked),
            ]);
        } else if target_valid {
            let ghost begun_with = target;
            actions.push(RunnerAction::LoadDirectly(target, play));
            assert(actions@ =~= seq![
                RunnerAction::<P, A>::StopPlayer,
                RunnerAction::LoadDirectly(begun_with, play),
            ]);
        } else {
            assert(actions@ =~= seq![RunnerAction::<P, A>::StopPlayer]);
        }
        actions
    }
}

/// The delay doubles with each failure up to its limit, and stays within its
/// bounds.
pub proof fn law_the_delay_doubles(failures: nat)
    ensures
        FIRST_BACKOFF_MS <= backoff_after(failures) <= MAX_BACKOFF_MS,
        failures >= 5 ==> backoff_after(failures) == MAX_BACKOFF_MS,
        failures < 5 ==> backoff_after(failures) == FIRST_BACKOFF_MS
            * vstd::arithmetic::power2::pow2(failures),
    decreases failures,
{
    vstd::arithmetic::power2::lemma2_to64();
    if failures > 0 {
        law_the_delay_doubles((failures - 1) as nat);
        if failures < 5 {
            assert(failures == 1 || failures == 2 || failures == 3 || failures == 4);
        }
    }
}

/// Setbacks in a row: whatever else happens to a loop that has credentials, its
/// delay is the one after as many failures as there were setbacks since the last
/// success. After the `k`-th of them the next attempt is due one, two, four,
/// eight, sixteen and from then on thirty seconds later; a success begins anew.
pub proof fn law_setbacks_lengthen_the_delay(states: Seq<RunnerLoop>, events: Seq<LoopEvent>)
    requires
        is_run(states, events),
        states[0].last_creds is Some,
        states[0].connect_backoff == backoff_after(0),
    ensures
        states.last().last_creds is Some,
        states.last().connect_backoff == backoff_after(setbacks(events)),
        ({
            let k = setbacks(events);
            let due = states.last().next_connect_attempt;
            k > 0 ==> {
                &&& due == last_setback(events) + backoff_after((k - 1) as nat)
                &&& k <= 5 ==> due == last_setback(events) + 1_000
                    * vstd::arithmetic::power2::pow2((k - 1) as nat)
                &&& k > 5 ==> due == last_setback(events) + 30_000
            }
        }),
    decreases events.len(),
{
    let k = setbacks(events);
    if k > 0 {
        law_the_delay_doubles((k - 1) as nat);
    }
    if events.len() > 0 {
        let last = events.len() - 1;
        let earlier = events.drop_last();
        let shorter = states.drop_last();
        assert(is_step(states, events, last));
        assert forall|i: int| 0 <= i < earlier.len() implies #[trigger] is_step(
            shorter,
            earlier,
            i,
        ) by {
            assert(is_step(states, events, i));
        }
        law_setbacks_lengthen_the_delay(shorter, earlier);
        law_the_delay_doubles(setbacks(earlier));
        assert(shorter.last() == states[last]);
        assert(states.last() == states[last + 1]);
    }
}

/// What is asked of the connection agrees with the mode of repetition that a
/// frontend was told: exactly one of the switches stands for it, or none.
pub proof fn law_loading_keeps_the_modes(
    state: RunnerState,
    context_uri: String,
    start_from_uri: Option<String>,
    ordered_track_uris: Option<Vec<String>>,
    play: bool,
)
    requires
        state.repeat <= 2,
    ensures
        ({
            let request = load_request(
                state,
                context_uri,
                start_from_uri,
                ordered_track_uris,
                play,
            );
            &&& crate::events::repeat_mode(request.repeat, request.repeat_track) == state.repeat
            &&& request.shuffle == state.shuffle
        }),
{
}

/// What is asked of the connection begins exactly if the command says so, at the
/// beginning of the track that the command names, or else of the context. The
/// tracks are those of the command, where it names any.
pub proof fn law_a_load_starts_as_the_command_says(
    state: RunnerState,
    context_uri: String,
    start_from_uri: Option<String>,
    ordered_track_uris: Option<Vec<String>>,
    play: bool,
)
    ensures
        ({
            let request = load_request(
                state,
                context_uri,
                start_from_uri,
                ordered_track_uris,
                play,
            );
            &&& request.start_playing == play
            &&& request.seek_to == 0
            &&& request.context_uri == context_uri
            &&& start_from_uri matches Some(uri) ==> request.playing_track == uri
            &&& start_from_uri is None ==> request.playing_track == context_uri
            &&& request.tracks is Some <==> ordered_track_uris is Some
                && ordered_track_uris->Some_0@.len() > 0
            &&& request.tracks is Some ==> request.tracks == ordered_track_uris
            &&& request.repeat <==> state.repeat == 1
            &&& request.repeat_track <==> state.repeat == 2
            &&& request.shuffle <==> state.shuffle
        }),
{
}

/// A track is taken from what is kept with the flag and the address that it was
/// asked for with, and as the index knows it. Only a track that the index knows,
/// with a file and a format that can be read, is taken from there.
pub proof fn law_an_offline_load_is_what_the_index_says<P, A>(
    action: RunnerAction<P, A>,
    index: OfflineIndex,
    track_uri: Seq<char>,
    uri_valid: bool,
    known_formats: Seq<i32>,
    play: bool,
)
    ensures
        can_play_offline(index, track_uri, uri_valid, known_formats) <==> {
            &&& uri_valid
            &&& index.says(track_uri) is Some
            &&& crate::encoding::is_hex(index.says(track_uri)->Some_0.file_id_hex)
            &&& known_formats.contains(index.says(track_uri)->Some_0.format)
        },
        plays_offline(action, index, track_uri, play) ==> {
            &&& action matches RunnerAction::LoadOffline(load, start) && start == play
                && load.track_uri@ == track_uri
            &&& index.says(track_uri) matches Some(entry) ==> action matches
                RunnerAction::LoadOffline(load, start) && load.file_id.0@
                == crate::encoding::hex_bytes(entry.file_id_hex) && load.format == entry.format
                && load.name@ == entry.name && load.artist@ == entry.artist && load.album@
                == entry.album && load.cover_url@ == entry.cover_url && load.duration_ms
                == entry.duration_ms && load.is_explicit == entry.is_explicit
        },
{
}

/// A command asks for a single track by itself exactly if it names no track to
/// begin with and its context has the address of a track.
pub proof fn law_a_single_track_is_asked_for_by_its_address(
    context_uri: String,
    start_from_uri: Option<String>,
)
    ensures
        is_direct(context_uri, start_from_uri) <==> {
            &&& start_from_uri is None
            &&& context_uri@.len() >= 14
            &&& context_uri@.take(14) == "spotify:track:"@
        },
        load_target(context_uri, start_from_uri) == start_from_uri.unwrap_or(context_uri),
{
    reveal_strlit("spotify:track:");
    let text = context_uri@;
    if text.len() >= 14 {
        assert(text.subrange(0, 14) =~= text.take(14));
    }
}

/// Each command leads to what it asks for and to nothing else. The player is
/// started, paused, stopped and moved as the command says, with or without a
/// connection. What goes through a connection is done only where there is one.
pub proof fn law_commands_do_what_they_ask_for<P, A>(
    this: RunnerLoop,
    command: LibrespotCommand<P, A>,
)
    ensures
        ({
            let actions = simple_actions(this, command);
            &&& actions.contains(RunnerAction::<P, A>::Exit) <==> command is Shutdown
            &&& actions.contains(RunnerAction::<P, A>::StopPlayer) <==> command is Shutdown
                || command is Stop
            &&& actions.contains(RunnerAction::<P, A>::StartPlayer) <==> command is Play
            &&& actions.contains(RunnerAction::<P, A>::PausePlayer) <==> command is Pause
            &&& actions.contains(RunnerAction::<P, A>::NextTrack) <==> command is Next
                && this.connected
            &&& actions.contains(RunnerAction::<P, A>::PreviousTrack) <==> command is Prev
                && this.connected
            &&& actions.contains(RunnerAction::<P, A>::ActivateConnection) <==> this.connected && (
            command is Play || command is Next || command is Prev)
            &&& actions.contains(RunnerAction::<P, A>::ShutDownConnection) <==> this.connected && (
            command is Shutdown || command is UpdateCredentials)
            &&& actions.contains(RunnerAction::<P, A>::DropConnectionTask) <==> command
                is UpdateCredentials
            &&& actions.contains(RunnerAction::<P, A>::LaunchDiscovery) <==> command
                is StartDiscovery && !this.has_discovery
            &&& actions.len() <= 3
            &&& actions.no_duplicates()
        }),
        forall|position: u32| #[trigger]
            simple_actions(this, command).contains(RunnerAction::<P, A>::SeekPlayer(position))
                <==> command == LibrespotCommand::<P, A>::Seek(position),
        forall|volume: u16| #[trigger]
            simple_actions(this, command).contains(RunnerAction::<P, A>::SetMixerVolume(volume))
                <==> command == LibrespotCommand::<P, A>::SetVolume(volume),
        forall|volume: u16| #[trigger]
            simple_actions(this, command).contains(RunnerAction::<P, A>::EmitVolume(volume))
                <==> command == LibrespotCommand::<P, A>::SetVolume(volume),
        forall|on: bool| #[trigger]
            simple_actions(this, command).contains(RunnerAction::<P, A>::SetShuffle(on)) <==> command
                == LibrespotCommand::<P, A>::SetShuffle(on) && this.connected,
        forall|on: bool| #[trigger]
            simple_actions(this, command).contains(RunnerAction::<P, A>::SetRepeat(on)) <==> command
                == LibrespotCommand::<P, A>::SetRepeatContext(on) && this.connected,
        forall|on: bool| #[trigger]
            simple_actions(this, command).contains(RunnerAction::<P, A>::SetRepeatTrack(on))
                <==> command == LibrespotCommand::<P, A>::SetRepeatTrack(on) && this.connected,
        command matches LibrespotCommand::SetTrackPersisted { track_uri, persisted, result_tx }
            ==> simple_actions(this, command).contains(
            RunnerAction::<P, A>::KeepTrack(track_uri, persisted, result_tx),
        ),
        command matches LibrespotCommand::GetAppData { kind, argument, result_tx }
            ==> simple_actions(this, command).contains(
            RunnerAction::<P, A>::AnswerAppData(kind, argument, result_tx),
        ),
        command is Shutdown ==> simple_actions(this, command).last() == RunnerAction::<
            P,
            A,
        >::Exit,
        this.connected && (command is Play || command is Next || command is Prev)
            ==> simple_actions(this, command).first() == RunnerAction::<
            P,
            A,
        >::ActivateConnection,
{
    let actions = simple_actions(this, command);
    if actions.len() > 0 {
        assert(actions.contains(actions[0]));
    }
    if actions.len() > 1 {
        assert(actions.contains(actions[1]));
    }
    if actions.len() > 2 {
        assert(actions.contains(actions[2]));
    }
}

/// What a success, a failure and the end of a connection leave behind. After a
/// success there is a connection with its task, none is sought, and the delay is
/// the first one again. A failure changes nothing but the delay and the time. An
/// end leaves no connection, and one is sought wherever there are credentials.
pub proof fn law_the_loop_knows_its_connection(before: RunnerLoop, now: u64)
    requires
        before.wf(),
        now + 30_000 <= u64::MAX,
    ensures
        ({
            let after = after_success(before, now);
            &&& after.connected && after.has_task && !after.connecting
            &&& after.connect_backoff == 1_000 && after.next_connect_attempt == now
            &&& after.last_creds == before.last_creds
            &&& after.has_discovery == before.has_discovery
            &&& after.wf()
        }),
        ({
            let after = after_failure(before, now);
            &&& after.connected == before.connected && after.has_task == before.has_task
            &&& after.connecting == before.connecting
            &&& after.last_creds == before.last_creds
            &&& after.has_discovery == before.has_discovery
            &&& after.next_connect_attempt == now + before.connect_backoff
            &&& after.connect_backoff == before.connect_backoff * 2 || (after.connect_backoff
                == 30_000 && before.connect_backoff * 2 > 30_000)
            &&& after.wf()
        }),
        ({
            let after = after_task_end(before, now);
            &&& !after.connected && !after.has_task
            &&& after.last_creds == before.last_creds
            &&& after.has_discovery == before.has_discovery
            &&& before.last_creds is Some ==> after.connecting && after.next_connect_attempt == now
                + before.connect_backoff && after.connect_backoff >= before.connect_backoff
            &&& before.last_creds is None ==> after.connecting == before.connecting
                && after.next_connect_attempt == before.next_connect_attempt
                && after.connect_backoff == before.connect_backoff
            &&& after.wf()
        }),
{
}

/// Whether an action loads something.
pub open spec fn loads<P, A>(action: RunnerAction<P, A>) -> bool {
    action is LoadByConnection || action is LoadOffline || action is LoadDirectly
}

/// A load takes one way. Nothing happens for an address that is not valid. Else
/// what plays is stopped first, and at most one thing is loaded, last of all: a
/// track that is kept, if it was asked for by itself or there is no connection;
/// else whatever was asked for, by the connection that there is; else the track
/// itself. Only a track without a valid address and without a connection is not
/// loaded. Each way starts exactly if the command says so.
pub proof fn law_a_load_takes_one_way<P, A>(
    this: RunnerLoop,
    state: RunnerState,
    index: OfflineIndex,
    known_formats: Seq<i32>,
    context_uri: String,
    start_from_uri: Option<String>,
    ordered_track_uris: Option<Vec<String>>,
    play: bool,
    context_valid: bool,
    target_valid: bool,
    actions: Seq<RunnerAction<P, A>>,
)
    requires
        is_load_answer(
            this,
            state,
            index,
            known_formats,
            context_uri,
            start_from_uri,
            ordered_track_uris,
            play,
            context_valid,
            target_valid,
            actions,
        ),
    ensures
        !context_valid <==> actions.len() == 0,
        context_valid ==> {
            let target = start_from_uri.unwrap_or(context_uri);
            let single = start_from_uri is None && text::occurs_at(
                context_uri@,
                "spotify:track:"@,
                0,
            );
            let kept = target_valid && index.says(target@) is Some && crate::encoding::is_hex(
                index.says(target@)->Some_0.file_id_hex,
            ) && known_formats.contains(index.says(target@)->Some_0.format);
            let last = actions.last();
            &&& actions[0] is StopPlayer
            &&& loads(last) <==> this.connected || target_valid
            &&& forall|i: int| 0 <= i < actions.len() - 1 ==> !loads(#[trigger] actions[i])
            &&& last is LoadOffline <==> kept && (single || !this.connected)
            &&& last is LoadByConnection <==> this.connected && !(kept && single)
            &&& last is LoadDirectly <==> !this.connected && !kept && target_valid
            &&& last is LoadByConnection ==> actions.len() == 3 && actions[1] is ActivateConnection
            &&& last matches RunnerAction::LoadByConnection(request) ==> request.start_playing
                == play && request.seek_to == 0 && request.context_uri == context_uri
                && request.playing_track == target
            &&& last matches RunnerAction::LoadOffline(load, start) ==> start == play
                && load.track_uri@ == target@
            &&& last matches RunnerAction::LoadDirectly(uri, start) ==> start == play && uri
                == target
        },
{
}

/// What a runner remembers of a load is that it is at the beginning, and nothing
/// else changes; a load that does not happen changes nothing.
pub proof fn law_a_load_begins_at_the_beginning(
    state: RunnerState,
    context_valid: bool,
    write_pos: usize,
)
    ensures
        ({
            let after = loaded_state(state, context_valid, write_pos);
            &&& context_valid ==> after.position_ms == 0 && after.sync_write_pos == write_pos
            &&& !context_valid ==> after == state
            &&& after.is_playing == state.is_playing && after.volume == state.volume
            &&& after.shuffle == state.shuffle && after.repeat == state.repeat
            &&& after.duration_ms == state.duration_ms
            &&& after.current_track == state.current_track
            &&& after.audio_generation == state.audio_generation
        }),
{
}

/// New credentials replace those before them and lead to a new connection, and the
/// end leaves none. No other command changes the loop. Only a command for the
/// volume changes what is remembered, and that to the volume it names.
pub proof fn law_commands_change_what_they_name<P, A>(
    before: RunnerLoop,
    command: LibrespotCommand<P, A>,
    after: RunnerLoop,
    state: RunnerState,
)
    requires
        is_commanded(before, command, after),
    ensures
        command matches LibrespotCommand::UpdateCredentials { username, auth_data } ==> {
            &&& after.last_creds matches Some(creds) && creds.username == Some(username)
                && creds.auth_type is UserPass && creds.auth_data@ == vstd::utf8::encode_utf8(
                auth_data@,
            )
            &&& after.connecting && !after.connected && !after.has_task
        },
        command is Shutdown ==> !after.connected && after.has_task == before.has_task,
        !(command is UpdateCredentials) ==> after.last_creds == before.last_creds
            && after.connecting == before.connecting,
        !(command is UpdateCredentials) && !(command is Shutdown) ==> after == before,
        after.has_discovery == before.has_discovery,
        after.connect_backoff == before.connect_backoff,
        after.next_connect_attempt == before.next_connect_attempt,
        command matches LibrespotCommand::SetVolume(volume) ==> commanded_state(
            state,
            command,
        ).volume == volume,
        !(command is SetVolume) ==> commanded_state(state, command) == state,
        commanded_state(state, command).position_ms == state.position_ms,
        commanded_state(state, command).is_playing == state.is_playing,
        commanded_state(state, command).current_track == state.current_track,
        commanded_state(state, command).shuffle == state.shuffle,
        commanded_state(state, command).repeat == state.repeat,
{
}

/// Connecting comes last, after a session that is no longer valid was renewed and
/// a connection that there is was shut down, and each of these is done only where
/// it is needed.
pub proof fn law_connecting_comes_last<P, A>(session_invalid: bool, connected: bool)
    ensures
        ({
            let actions = connect_actions::<P, A>(session_invalid, connected);
            &&& actions.last() is Connect
            &&& actions.len() == 1 + (if session_invalid {
                1int
            } else {
                0int
            }) + (if connected {
                1int
            } else {
                0int
            })
            &&& session_invalid ==> actions[0] is RenewSession
            &&& connected ==> actions[actions.len() - 2] is ShutDownConnection
        }),
{
}

} // verus!
