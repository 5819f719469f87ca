//! One sender's connection: what each command does and is answered, and when
//! the sender is told something unasked.

use vstd::prelude::*;
use vstd::string::*;

use crate::fcast::{
    ImageWallpaperUpdateMessage, Opcode, PlayMessage, PlaybackErrorMessage, PlaybackState,
    QueueJumpToIndexMessage, Real,
    SeekMessage, SetImageWallpaperMessage, SetSpeedMessage, SetVolumeMessage, VersionMessage,
    PROTOCOL_VERSION,
};
use crate::images;
use crate::images::ImageStore;
use crate::player::{PlayError, Player, Task};
use crate::text;

verus! {

/// Milliseconds between two unasked updates while something plays.
pub const PUSH_TICK_INTERVAL_MS: u64 = 1_000;

// ---------------------------------------------------------------------------
// Commands
// ---------------------------------------------------------------------------

/// What a command's body holds.
#[derive(Debug, Clone, Copy, PartialEq, Eq, Structural)]
pub enum PayloadKind {
    /// Nothing that is looked at.
    Nothing,
    Play,
    Seek,
    Volume,
    Speed,
    Index,
    Wallpaper,
}

/// A command's body, decoded.
#[derive(Debug)]
pub enum Payload {
    Nothing,
    Play(PlayMessage),
    Seek(SeekMessage),
    Volume(SetVolumeMessage),
    Speed(SetSpeedMessage),
    Index(QueueJumpToIndexMessage),
    Wallpaper(SetImageWallpaperMessage),
}

impl Payload {
    /// What this body holds.
    pub open spec fn kind(self) -> PayloadKind {
        match self {
            Payload::Nothing => PayloadKind::Nothing,
            Payload::Play(_) => PayloadKind::Play,
            Payload::Seek(_) => PayloadKind::Seek,
            Payload::Volume(_) => PayloadKind::Volume,
            Payload::Speed(_) => PayloadKind::Speed,
            Payload::Index(_) => PayloadKind::Index,
            Payload::Wallpaper(_) => PayloadKind::Wallpaper,
        }
    }
}

/// What the body of a command with this opcode holds.
pub open spec fn kind_for(opcode: Opcode) -> PayloadKind {
    match opcode {
        Opcode::Play => PayloadKind::Play,
        Opcode::Seek => PayloadKind::Seek,
        Opcode::SetVolume => PayloadKind::Volume,
        Opcode::SetSpeed => PayloadKind::Speed,
        Opcode::QueueJumpToIndex => PayloadKind::Index,
        Opcode::SetImageWallpaper => PayloadKind::Wallpaper,
        _ => PayloadKind::Nothing,
    }
}

/// What the body of a command with this opcode is to be decoded as.
pub fn payload_kind(opcode: Opcode) -> (r: PayloadKind)
    ensures
        r == kind_for(opcode),
{
    match opcode {
        Opcode::Play => PayloadKind::Play,
        Opcode::Seek => PayloadKind::Seek,
        Opcode::SetVolume => PayloadKind::Volume,
        Opcode::SetSpeed => PayloadKind::Speed,
        Opcode::QueueJumpToIndex => PayloadKind::Index,
        Opcode::SetImageWallpaper => PayloadKind::Wallpaper,
        _ => PayloadKind::Nothing,
    }
}

/// What a command has the receiver do before it is answered.
#[derive(Debug)]
pub enum Work {
    Nothing,
    /// Steps to work through.
    Task(Task),
    Pause,
    Resume,
    Seek(Real),
    SetVolume(Real),
    SetSpeed(Real),
}

/// What a command is answered once it is done.
#[derive(Debug)]
pub enum Reply {
    Nothing,
    /// What is playing now.
    Status,
    /// The volume now.
    Volume,
    Version(VersionMessage),
    Pong,
    /// The queue now.
    Queue,
    Wallpaper(ImageWallpaperUpdateMessage),
}

impl Reply {
    /// The opcode that this answer is sent with.
    pub open spec fn code(self) -> Option<Opcode> {
        match self {
            Reply::Nothing => None,
            Reply::Status => Some(Opcode::PlaybackUpdate),
            Reply::Volume => Some(Opcode::VolumeUpdate),
            Reply::Version(_) => Some(Opcode::Version),
            Reply::Pong => Some(Opcode::Pong),
            Reply::Queue => Some(Opcode::QueueState),
            Reply::Wallpaper(_) => Some(Opcode::ImageWallpaperUpdate),
        }
    }

    /// The opcode that this answer is sent with; `None` for no answer.
    pub fn opcode(&self) -> (r: Option<Opcode>)
        ensures
            r == self.code(),
    {
        match self {
            Reply::Nothing => None,
            Reply::Status => Some(Opcode::PlaybackUpdate),
            Reply::Volume => Some(Opcode::VolumeUpdate),
            Reply::Version(_) => Some(Opcode::Version),
            Reply::Pong => Some(Opcode::Pong),
            Reply::Queue => Some(Opcode::QueueState),
            Reply::Wallpaper(_) => Some(Opcode::ImageWallpaperUpdate),
        }
    }
}

/// The opcode that a command with this opcode is answered with, where it
/// succeeds; `None` for what only a receiver sends, which is ignored.
pub open spec fn answer_to(opcode: Opcode) -> Option<Opcode> {
    match opcode {
        Opcode::Play | Opcode::Pause | Opcode::Resume | Opcode::Stop | Opcode::Seek
        | Opcode::SetSpeed => Some(Opcode::PlaybackUpdate),
        Opcode::SetVolume => Some(Opcode::VolumeUpdate),
        Opcode::Version => Some(Opcode::Version),
        Opcode::Ping => Some(Opcode::Pong),
        Opcode::RequestQueue | Opcode::QueueJumpForward | Opcode::QueueJumpBackward
        | Opcode::ClearQueue | Opcode::QueueJumpToIndex => Some(Opcode::QueueState),
        Opcode::SetImageWallpaper => Some(Opcode::ImageWallpaperUpdate),
        _ => None,
    }
}

/// What a command leads to.
#[derive(Debug)]
pub struct Dispatch {
    pub work: Work,
    pub reply: Reply,
    /// Whether every sender is told what is playing once the work is done. The
    /// steps of a task say it for themselves.
    pub publish: bool,
}

/// Whether a command takes the screen, or gives it up: two of these never
/// overlap, and neither do they with anything else that loads or stops.
pub open spec fn takes_the_screen(opcode: Opcode) -> bool {
    match opcode {
        Opcode::Play | Opcode::Stop | Opcode::QueueJumpForward | Opcode::QueueJumpBackward
        | Opcode::QueueJumpToIndex | Opcode::ClearQueue => true,
        _ => false,
    }
}

/// Whether a command is to wait until no other one takes the screen, and to
/// keep others waiting until it is done.
pub fn is_exclusive(opcode: Opcode) -> (r: bool)
    ensures
        r == takes_the_screen(opcode),
{
    match opcode {
        Opcode::Play | Opcode::Stop | Opcode::QueueJumpForward | Opcode::QueueJumpBackward
        | Opcode::QueueJumpToIndex | Opcode::ClearQueue => true,
        _ => false,
    }
}

/// Whether a command changes how what is on screen plays: it pauses, resumes,
/// seeks or changes the speed.
pub open spec fn changes_playback(opcode: Opcode) -> bool {
    !takes_the_screen(opcode) && answer_to(opcode) == Some(Opcode::PlaybackUpdate)
}

/// Why a command is refused.
#[derive(Debug)]
pub enum DispatchError {
    /// What it asks to play cannot be.
    Play(PlayError),
    /// There is no image with the id it gives.
    UnknownImage(String),
}

impl DispatchError {
    /// The text of the error.
    pub open spec fn text(self) -> Seq<char> {
        match self {
            DispatchError::Play(e) => e.text(),
            DispatchError::UnknownImage(id) => "no uploaded image has the id "@
                + text::debug_quoted(id@),
        }
    }

    /// Why the command is refused, in words.
    pub fn message(&self) -> (r: String)
        ensures
            r@ == self.text(),
    {
        match self {
            DispatchError::Play(e) => e.message(),
            DispatchError::UnknownImage(id) => {
                let mut r: String = "no uploaded image has the id ".to_string();
                r.append(text::quoted(id.as_str()).as_str());
                r
            },
        }
    }
}

/// The task of a command that may start one, or why it starts none.
pub open spec fn task_of(r: Result<Dispatch, DispatchError>) -> Result<Option<Task>, PlayError> {
    match r {
        Ok(dispatch) => match dispatch.work {
            Work::Task(task) => Ok(Some(task)),
            _ => Ok(None),
        },
        Err(DispatchError::Play(e)) => Err(e),
        Err(DispatchError::UnknownImage(_)) => Ok(None),
    }
}

fn started(r: Result<Option<Task>, PlayError>, reply: Reply) -> (d: Result<Dispatch, DispatchError>)
    ensures
        task_of(d) == r,
        d is Ok <==> r is Ok,
        d matches Ok(dispatch) ==> dispatch.reply == reply && !dispatch.publish && (
        dispatch.work is Task || dispatch.work is Nothing),
        d matches Err(e) ==> e is Play,
{
    match r {
        Ok(Some(task)) => Ok(Dispatch { work: Work::Task(task), reply, publish: false }),
        Ok(None) => Ok(Dispatch { work: Work::Nothing, reply, publish: false }),
        Err(e) => Err(DispatchError::Play(e)),
    }
}

/// Whether a command is only work on the media player: it changes nothing
/// here.
pub open spec fn is_plain(opcode: Opcode) -> bool {
    match opcode {
        Opcode::Pause | Opcode::Resume | Opcode::Seek | Opcode::SetVolume | Opcode::SetSpeed
        | Opcode::Version | Opcode::Ping | Opcode::RequestQueue => true,
        _ => answer_to(opcode) is None,
    }
}

/// The work of a command that is only work on the media player.
pub open spec fn plain_work(opcode: Opcode, payload: Payload) -> Work {
    match (opcode, payload) {
        (Opcode::Pause, _) => Work::Pause,
        (Opcode::Resume, _) => Work::Resume,
        (Opcode::Seek, Payload::Seek(m)) => Work::Seek(m.time),
        (Opcode::SetVolume, Payload::Volume(m)) => Work::SetVolume(m.volume),
        (Opcode::SetSpeed, Payload::Speed(m)) => Work::SetSpeed(m.speed),
        _ => Work::Nothing,
    }
}

/// A command came in, at the time `now`: change what it changes here, and say
/// what is to be done and then answered. Every command that succeeds is
/// answered as `answer_to` says.
pub fn dispatch(
    player: &mut Player,
    store: &mut ImageStore,
    opcode: Opcode,
    payload: Payload,
    now: u64,
) -> (r: Result<Dispatch, DispatchError>)
    requires
        payload.kind() == kind_for(opcode),
    ensures
        r matches Ok(d) ==> d.reply.code() == answer_to(opcode),
        r matches Ok(d) ==> (d.reply matches Reply::Version(m) ==> m.version == PROTOCOL_VERSION),
        r matches Ok(d) ==> d.publish == changes_playback(opcode),
        r matches Ok(d) ==> (d.work is Task ==> takes_the_screen(opcode)),
        !is_plain(opcode) ==> (r matches Ok(d) ==> d.work is Task || d.work is Nothing),
        opcode != Opcode::SetImageWallpaper ==> *final(store) == *old(store),
        match (opcode, payload) {
            (Opcode::Play, Payload::Play(message)) => {
                &&& old(player).queued(message@, *final(player), task_of(r))
                &&& r matches Err(e) ==> e is Play
            },
            (Opcode::QueueJumpForward, _) => {
                &&& old(player).jump(
                    old(player).queue@.next_index(),
                    *final(player),
                    task_of(r),
                )
                &&& r matches Err(e) ==> e is Play
            },
            (Opcode::QueueJumpBackward, _) => {
                &&& old(player).jump(
                    old(player).queue@.previous_index(),
                    *final(player),
                    task_of(r),
                )
                &&& r matches Err(e) ==> e is Play
            },
            (Opcode::QueueJumpToIndex, Payload::Index(m)) => {
                &&& old(player).jump(
                    old(player).queue@.index_in_range(m.index),
                    *final(player),
                    task_of(r),
                )
                &&& r matches Err(e) ==> e is Play
            },
            (Opcode::Stop, _) => {
                &&& r matches Ok(d) && (d.work matches Work::Task(task) && old(player).stops(
                    *final(player),
                    task,
                ))
            },
            (Opcode::ClearQueue, _) => {
                &&& r is Ok
                &&& old(player).clears(*final(player), task_of(r)->Ok_0)
            },
            (Opcode::SetImageWallpaper, Payload::Wallpaper(m)) => {
                &&& *final(player) == *old(player)
                &&& final(store).manifest@ == images::tagging(
                    old(store).manifest@,
                    m.id@,
                    m.wallpaper,
                )
                &&& final(store).dir == old(store).dir
                &&& final(store).manifest_path == old(store).manifest_path
                &&& final(store).last_wallpaper_id == old(store).last_wallpaper_id
                &&& if images::knows(old(store).manifest@, m.id@) {
                    r matches Ok(d) && d.work is Nothing && (d.reply matches Reply::Wallpaper(u)
                        && u.generation_time == now && u.id@ == m.id@ && u.wallpaper
                        == m.wallpaper)
                } else {
                    r matches Err(DispatchError::UnknownImage(id)) && id@ == m.id@
                }
            },
            _ => {
                &&& is_plain(opcode)
                &&& *final(player) == *old(player)
                &&& r matches Ok(d) && d.work == plain_work(opcode, payload)
            },
        },
{
    match (opcode, payload) {
        (Opcode::Play, Payload::Play(message)) => started(player.play(message), Reply::Status),
        (Opcode::Pause, _) => Ok(Dispatch { work: Work::Pause, reply: Reply::Status, publish: true }),
        (Opcode::Resume, _) => Ok(Dispatch { work: Work::Resume, reply: Reply::Status, publish: true }),
        (Opcode::Stop, _) => Ok(
            Dispatch { work: Work::Task(player.stop()), reply: Reply::Status, publish: false },
        ),
        (Opcode::Seek, Payload::Seek(m)) => Ok(
            Dispatch { work: Work::Seek(m.time), reply: Reply::Status, publish: true },
        ),
        (Opcode::SetVolume, Payload::Volume(m)) => Ok(
            Dispatch { work: Work::SetVolume(m.volume), reply: Reply::Volume, publish: false },
        ),
        (Opcode::SetSpeed, Payload::Speed(m)) => Ok(
            Dispatch { work: Work::SetSpeed(m.speed), reply: Reply::Status, publish: true },
        ),
        (Opcode::Version, _) => Ok(
            Dispatch {
                work: Work::Nothing,
                reply: Reply::Version(VersionMessage { version: PROTOCOL_VERSION }),
                publish: false,
            },
        ),
        (Opcode::Ping, _) => Ok(Dispatch { work: Work::Nothing, reply: Reply::Pong, publish: false }),
        (Opcode::RequestQueue, _) => Ok(Dispatch { work: Work::Nothing, reply: Reply::Queue, publish: false }),
        (Opcode::QueueJumpForward, _) => started(player.jump_forward(), Reply::Queue),
        (Opcode::QueueJumpBackward, _) => started(player.jump_backward(), Reply::Queue),
        (Opcode::QueueJumpToIndex, Payload::Index(m)) => started(
            player.jump_to_index(m.index),
            Reply::Queue,
        ),
        (Opcode::ClearQueue, _) => started(Ok(player.clear_queue()), Reply::Queue),
        (Opcode::SetImageWallpaper, Payload::Wallpaper(m)) => {
            if store.set_wallpaper(m.id.as_str(), m.wallpaper) {
                Ok(
                    Dispatch {
                        work: Work::Nothing,
                        reply: Reply::Wallpaper(
                            ImageWallpaperUpdateMessage {
                                generation_time: now,
                                id: m.id,
                                wallpaper: m.wallpaper,
                            },
                        ),
                        publish: false,
                    },
                )
            } else {
                Err(DispatchError::UnknownImage(m.id))
            }
        },
        _ => Ok(Dispatch { work: Work::Nothing, reply: Reply::Nothing, publish: false }),
    }
}

// ---------------------------------------------------------------------------
// Updates
// ---------------------------------------------------------------------------

/// The newest update written on a connection. An update can be made before
/// another one and reach the connection after it; then it is dropped.
#[derive(Debug, Clone, Copy, PartialEq, Eq, Structural)]
pub struct ConnectionWriter {
    pub last_generation: u64,
}

impl ConnectionWriter {
    /// A connection on which nothing was written yet.
    pub fn new() -> (r: ConnectionWriter)
        ensures
            r.last_generation == 0,
    {
        ConnectionWriter { last_generation: 0 }
    }

    /// Whether an update made at `generation` is to be written: unless a newer
    /// one was.
    pub fn write_playback_update(&mut self, generation: u64) -> (r: bool)
        ensures
            r == (generation >= old(self).last_generation),
            final(self).last_generation == newest(old(self).last_generation, generation),
    {
        if generation < self.last_generation {
            return false;
        }
        self.last_generation = generation;
        true
    }
}

/// The newer of two updates.
pub open spec fn newest(a: u64, b: u64) -> u64 {
    if a <= b {
        b
    } else {
        a
    }
}

/// What became of writing an update.
#[derive(Debug, Clone, Copy, PartialEq, Eq, Structural)]
pub enum WriteOutcome {
    Written,
    /// Dropped, as older than one that was written.
    Dropped,
    /// The connection is gone.
    Failed,
}

/// What wakes the task that tells a sender things unasked.
#[derive(Debug, Clone, Copy, PartialEq, Eq, Structural)]
pub enum PushEvent {
    /// What is playing has changed.
    Changed,
    /// The queue has changed.
    QueueChanged,
    /// The tick.
    Tick,
    /// The receiver is going away.
    Closed,
}

/// What that task does next.
#[derive(Debug, Clone, Copy, PartialEq, Eq, Structural)]
pub enum PushAction {
    /// Write the update that was published.
    WritePublished,
    /// Ask the player anew, so that the time in the update moves on, and write
    /// that.
    WriteFresh,
    /// Write the queue as it is now.
    WriteQueue,
    /// Wait on.
    Wait,
    /// End.
    End,
}

/// The task that tells one sender things unasked.
#[derive(Debug, Clone, Copy, PartialEq, Eq, Structural)]
pub struct PushTask {
    /// The state that the sender knows of.
    pub last_state: PlaybackState,
}

impl PushTask {
    /// A task for a sender that connects while the receiver is in `state`.
    pub fn new(state: PlaybackState) -> (r: PushTask)
        ensures
            r.last_state == state,
    {
        PushTask { last_state: state }
    }

    /// Whether the tick is waited for: only while something plays.
    pub fn ticking(&self) -> (r: bool)
        ensures
            r == (self.last_state == PlaybackState::Playing),
    {
        self.last_state == PlaybackState::Playing
    }

    /// What to do about an event.
    pub fn woken(&self, event: PushEvent) -> (r: PushAction)
        ensures
            r == (match event {
                PushEvent::Closed => PushAction::End,
                PushEvent::Changed => PushAction::WritePublished,
                PushEvent::QueueChanged => PushAction::WriteQueue,
                PushEvent::Tick => if self.last_state == PlaybackState::Playing {
                    PushAction::WriteFresh
                } else {
                    PushAction::Wait
                },
            }),
    {
        match event {
            PushEvent::Closed => PushAction::End,
            PushEvent::Changed => PushAction::WritePublished,
            PushEvent::QueueChanged => PushAction::WriteQueue,
            PushEvent::Tick => if self.ticking() {
                PushAction::WriteFresh
            } else {
                PushAction::Wait
            },
        }
    }

    /// An update with `state` was written, or not; `published` is the state
    /// published last. The sender knows of what is on the wire: where the
    /// update was dropped, that is at least what was published. Says whether
    /// to go on.
    pub fn sent(
        &mut self,
        outcome: WriteOutcome,
        state: PlaybackState,
        published: PlaybackState,
    ) -> (r: bool)
        ensures
            r == (outcome != WriteOutcome::Failed),
            final(self).last_state == (match outcome {
                WriteOutcome::Written => state,
                WriteOutcome::Dropped => published,
                WriteOutcome::Failed => old(self).last_state,
            }),
    {
        match outcome {
            WriteOutcome::Written => {
                self.last_state = state;
                true
            },
            WriteOutcome::Dropped => {
                self.last_state = published;
                true
            },
            WriteOutcome::Failed => false,
        }
    }
}

// ---------------------------------------------------------------------------
// A connection's course
// ---------------------------------------------------------------------------

/// What has just happened on a connection.
#[derive(Debug)]
pub enum ConnectionEvent {
    /// It was opened.
    Opened,
    /// A frame came in.
    FrameRead,
    /// The sender closed it, between two frames.
    Closed,
    /// What came in is no frame, or nothing could be read.
    ReadFailed,
    /// The command was done and answered.
    Answered,
    /// The command failed, for the reason given.
    CommandFailed(String),
    /// The failure was told to the sender.
    ErrorSent,
    /// It could not be told.
    ErrorNotSent,
}

/// What to do next on a connection.
#[derive(Debug)]
pub enum ConnectionAction {
    /// Read the next frame.
    ReadFrame,
    /// Do what the frame asks for, and answer it.
    Answer,
    /// Send this as a `PlaybackError`.
    SendError(PlaybackErrorMessage),
    /// End the connection; nothing went wrong with it.
    Close,
    /// End the connection, on which something went wrong.
    Abandon,
}

/// What to do next on a connection: a command that fails is answered once with
/// the reason, and the connection goes on; only a connection that cannot be
/// read from or written to ends.
pub fn connection_step(event: ConnectionEvent) -> (r: ConnectionAction)
    ensures
        match event {
            ConnectionEvent::Opened | ConnectionEvent::Answered | ConnectionEvent::ErrorSent =>
                r is ReadFrame,
            ConnectionEvent::FrameRead => r is Answer,
            ConnectionEvent::CommandFailed(reason) => r matches ConnectionAction::SendError(m)
                && m.message@ == reason@,
            ConnectionEvent::Closed => r is Close,
            ConnectionEvent::ReadFailed | ConnectionEvent::ErrorNotSent => r is Abandon,
        },
{
    match event {
        ConnectionEvent::Opened | ConnectionEvent::Answered | ConnectionEvent::ErrorSent =>
            ConnectionAction::ReadFrame,
        ConnectionEvent::FrameRead => ConnectionAction::Answer,
        ConnectionEvent::CommandFailed(reason) => ConnectionAction::SendError(
            PlaybackErrorMessage { message: reason },
        ),
        ConnectionEvent::Closed => ConnectionAction::Close,
        ConnectionEvent::ReadFailed | ConnectionEvent::ErrorNotSent => ConnectionAction::Abandon,
    }
}

// ---------------------------------------------------------------------------
// The port
// ---------------------------------------------------------------------------

/// Whether a character is a decimal digit.
pub open spec fn is_digit(c: char) -> bool {
    '0' <= c && c <= '9'
}

/// Whether a text is made of decimal digits alone.
pub open spec fn all_digits(s: Seq<char>) -> bool {
    forall|i: int| 0 <= i < s.len() ==> is_digit(#[trigger] s[i])
}

/// The number that decimal digits stand for.
pub open spec fn value(s: Seq<char>) -> nat
    decreases s.len(),
{
    if s.len() == 0 {
        0
    } else {
        value(s.drop_last()) * 10 + (s.last() as nat - '0' as nat) as nat
    }
}

/// The port that a text stands for: digits, with or without a plus sign in
/// front, for a number that a port can be.
pub open spec fn port_in(s: Seq<char>) -> Option<u16> {
    let digits = if s.len() > 0 && s[0] == '+' {
        s.drop_first()
    } else {
        s
    };
    if digits.len() > 0 && all_digits(digits) && value(digits) <= u16::MAX {
        Some(value(digits) as u16)
    } else {
        None
    }
}

proof fn lemma_value_of_longer(s: Seq<char>, i: int)
    requires
        0 <= i <= s.len(),
    ensures
        value(s.take(i)) <= value(s),
    decreases s.len() - i,
{
    if i < s.len() {
        lemma_value_of_longer(s, i + 1);
        assert(s.take(i + 1).drop_last() =~= s.take(i));
    } else {
        assert(s.take(i) =~= s);
    }
}

/// The port that a text stands for.
fn read_port(s: &str) -> (r: Option<u16>)
    ensures
        r == port_in(s@),
{
    let v: Vec<char> = text::chars_of(s);
    let from: usize = if v.len() > 0 && v[0] == '+' {
        1
    } else {
        0
    };
    let ghost digits = v@.skip(from as int);
    assert(digits =~= if s@.len() > 0 && s@[0] == '+' {
        s@.drop_first()
    } else {
        s@
    });
    if from == v.len() {
        return None;
    }
    let mut n: u32 = 0;
    let mut i: usize = from;
    assert(digits.take(0) =~= Seq::<char>::empty());
    while i < v.len()
        invariant
            from <= i <= v.len(),
            from < v.len(),
            digits == v@.skip(from as int),
            digits == if s@.len() > 0 && s@[0] == '+' {
                s@.drop_first()
            } else {
                s@
            },
            all_digits(digits.take(i - from)),
            n == value(digits.take(i - from)),
            n <= u16::MAX,
        decreases v.len() - i,
    {
        let c: char = v[i];
        assert(digits[i - from] == c);
        if !('0' <= c && c <= '9') {
            assert(!all_digits(digits));
            return None;
        }
        assert(digits.take(i - from + 1).drop_last() =~= digits.take(i - from));
        n = n * 10 + (c as u32 - '0' as u32);
        i = i + 1;
        assert(all_digits(digits.take(i - from)));
        if n > 65535 {
            proof {
                lemma_value_of_longer(digits, i - from);
            }
            return None;
        }
    }
    assert(digits.take(i - from) =~= digits);
    Some(n as u16)
}

/// The port to listen on: the one that a setting names, where it names one,
/// and else `default`.
pub fn port(setting: Option<String>, default: u16) -> (r: u16)
    ensures
        r == (match setting {
            Some(s) => match port_in(s@) {
                Some(port) => port,
                None => default,
            },
            None => default,
        }),
{
    match setting {
        Some(s) => match read_port(s.as_str()) {
            Some(port) => port,
            None => default,
        },
        None => default,
    }
}

// ---------------------------------------------------------------------------
// Laws
// ---------------------------------------------------------------------------

/// The updates that are written, of those that reach a connection whose newest
/// one is `last`.
pub open spec fn written(last: u64, generations: Seq<u64>) -> Seq<u64>
    decreases generations.len(),
{
    if generations.len() == 0 {
        Seq::empty()
    } else if generations[0] >= last {
        seq![generations[0]] + written(generations[0], generations.drop_first())
    } else {
        written(last, generations.drop_first())
    }
}

/// A sender never sees an update that is older than one it has seen, in
/// whatever order they reach its connection.
pub proof fn lemma_updates_never_go_back(last: u64, generations: Seq<u64>, i: int, j: int)
    requires
        0 <= i <= j < written(last, generations).len(),
    ensures
        last <= written(last, generations)[i] <= written(last, generations)[j],
    decreases generations.len(),
{
    let rest = generations.drop_first();
    if generations[0] >= last {
        if i > 0 {
            lemma_updates_never_go_back(generations[0], rest, i - 1, j - 1);
        } else if j > 0 {
            lemma_updates_never_go_back(generations[0], rest, 0, j - 1);
        }
    } else {
        lemma_updates_never_go_back(last, rest, i, j);
    }
}

/// The newest update always gets through: each update is followed on the wire
/// by nothing older, and is itself there or was overtaken by a newer one.
pub proof fn lemma_the_newest_update_is_written(last: u64, generations: Seq<u64>, k: int)
    requires
        0 <= k < generations.len(),
        generations[k] >= last,
    ensures
        written(last, generations).len() > 0,
        written(last, generations).last() >= generations[k],
    decreases generations.len(),
{
    let rest = generations.drop_first();
    if generations[0] >= last {
        if k > 0 && generations[k] >= generations[0] {
            assert(rest[k - 1] == generations[k]);
            lemma_the_newest_update_is_written(generations[0], rest, k - 1);
            assert(written(last, generations).last() == written(generations[0], rest).last());
        } else {
            let n = written(last, generations).len() as int;
            assert(written(last, generations)[0] == generations[0]);
            lemma_updates_never_go_back(last, generations, 0, n - 1);
        }
    } else {
        assert(rest[k - 1] == generations[k]);
        lemma_the_newest_update_is_written(last, rest, k - 1);
    }
}

/// Every command that a sender can give is answered; what only a receiver
/// sends, and what says nothing, is not.
pub proof fn lemma_every_command_is_answered(opcode: Opcode)
    ensures
        answer_to(opcode) is None <==> (opcode == Opcode::NoOp || opcode == Opcode::PlaybackUpdate
            || opcode == Opcode::VolumeUpdate || opcode == Opcode::PlaybackError || opcode
            == Opcode::Pong || opcode == Opcode::QueueState || opcode
            == Opcode::ImageWallpaperUpdate),
{
}

proof fn lemma_value_of_decimal(n: nat)
    ensures
        all_digits(text::decimal(n)),
        text::decimal(n).len() > 0,
        text::decimal(n)[0] != '+',
        value(text::decimal(n)) == n,
    decreases n,
{
    let s = text::decimal(n);
    if n < 10 {
        assert(s.drop_last() =~= Seq::<char>::empty());
        assert(value(s.drop_last()) == 0);
    } else {
        lemma_value_of_decimal(n / 10);
        assert(s.drop_last() =~= text::decimal(n / 10));
    }
}

/// A port that is set is the port that is used.
pub proof fn lemma_a_port_is_read_back(n: u16)
    ensures
        port_in(text::decimal(n as nat)) == Some(n),
{
    lemma_value_of_decimal(n as nat);
}

/// What the body of each command holds.
pub proof fn lemma_what_commands_carry(opcode: Opcode)
    ensures
        kind_for(opcode) == PayloadKind::Play <==> opcode == Opcode::Play,
        kind_for(opcode) == PayloadKind::Seek <==> opcode == Opcode::Seek,
        kind_for(opcode) == PayloadKind::Volume <==> opcode == Opcode::SetVolume,
        kind_for(opcode) == PayloadKind::Speed <==> opcode == Opcode::SetSpeed,
        kind_for(opcode) == PayloadKind::Index <==> opcode == Opcode::QueueJumpToIndex,
        kind_for(opcode) == PayloadKind::Wallpaper <==> opcode == Opcode::SetImageWallpaper,
{
}

/// A body is of the kind that it is.
pub proof fn lemma_what_bodies_are(payload: Payload)
    ensures
        payload is Nothing <==> payload.kind() == PayloadKind::Nothing,
        payload is Play <==> payload.kind() == PayloadKind::Play,
        payload is Seek <==> payload.kind() == PayloadKind::Seek,
        payload is Volume <==> payload.kind() == PayloadKind::Volume,
        payload is Speed <==> payload.kind() == PayloadKind::Speed,
        payload is Index <==> payload.kind() == PayloadKind::Index,
        payload is Wallpaper <==> payload.kind() == PayloadKind::Wallpaper,
{
}

/// What each command is answered with: what plays, the volume, the version, a
/// pong, the queue or the tag.
pub proof fn lemma_what_commands_are_answered_with(opcode: Opcode)
    ensures
        answer_to(opcode) == Some(Opcode::PlaybackUpdate) <==> (opcode == Opcode::Play || opcode
            == Opcode::Pause || opcode == Opcode::Resume || opcode == Opcode::Stop || opcode
            == Opcode::Seek || opcode == Opcode::SetSpeed),
        answer_to(opcode) == Some(Opcode::VolumeUpdate) <==> opcode == Opcode::SetVolume,
        answer_to(opcode) == Some(Opcode::Version) <==> opcode == Opcode::Version,
        answer_to(opcode) == Some(Opcode::Pong) <==> opcode == Opcode::Ping,
        answer_to(opcode) == Some(Opcode::QueueState) <==> (opcode == Opcode::RequestQueue || opcode
            == Opcode::QueueJumpForward || opcode == Opcode::QueueJumpBackward || opcode
            == Opcode::ClearQueue || opcode == Opcode::QueueJumpToIndex),
        answer_to(opcode) == Some(Opcode::ImageWallpaperUpdate) <==> opcode
            == Opcode::SetImageWallpaper,
{
}

/// Each answer is sent with its own opcode.
pub proof fn lemma_what_answers_are_sent_with(reply: Reply)
    ensures
        reply is Nothing <==> reply.code() is None,
        reply is Status <==> reply.code() == Some(Opcode::PlaybackUpdate),
        reply is Volume <==> reply.code() == Some(Opcode::VolumeUpdate),
        reply is Version <==> reply.code() == Some(Opcode::Version),
        reply is Pong <==> reply.code() == Some(Opcode::Pong),
        reply is Queue <==> reply.code() == Some(Opcode::QueueState),
        reply is Wallpaper <==> reply.code() == Some(Opcode::ImageWallpaperUpdate),
{
}

/// Which commands take the screen, and which change how what is on it plays, so
/// that every sender is told.
pub proof fn lemma_which_commands_change_what_plays(opcode: Opcode)
    ensures
        takes_the_screen(opcode) <==> (opcode == Opcode::Play || opcode == Opcode::Stop || opcode
            == Opcode::QueueJumpForward || opcode == Opcode::QueueJumpBackward || opcode
            == Opcode::QueueJumpToIndex || opcode == Opcode::ClearQueue),
        changes_playback(opcode) <==> (opcode == Opcode::Pause || opcode == Opcode::Resume || opcode
            == Opcode::Seek || opcode == Opcode::SetSpeed),
        is_plain(opcode) <==> !takes_the_screen(opcode) && opcode != Opcode::SetImageWallpaper,
{
}

/// What the media player is told by a command that is only work on it: to
/// pause, to resume, or to go to the time, the volume or the speed that the
/// command gives.
pub proof fn lemma_what_the_media_player_is_told(
    opcode: Opcode,
    payload: Payload,
    seek: SeekMessage,
    volume: SetVolumeMessage,
    speed: SetSpeedMessage,
)
    ensures
        plain_work(Opcode::Pause, payload) == Work::Pause,
        plain_work(Opcode::Resume, payload) == Work::Resume,
        plain_work(Opcode::Seek, Payload::Seek(seek)) == Work::Seek(seek.time),
        plain_work(Opcode::SetVolume, Payload::Volume(volume)) == Work::SetVolume(volume.volume),
        plain_work(Opcode::SetSpeed, Payload::Speed(speed)) == Work::SetSpeed(speed.speed),
        opcode != Opcode::Pause && opcode != Opcode::Resume && opcode != Opcode::Seek && opcode
            != Opcode::SetVolume && opcode != Opcode::SetSpeed ==> plain_work(opcode, payload)
            == Work::Nothing,
{
}

/// A command starts a task exactly where its work is one, and is refused where
/// what it plays is.
pub proof fn lemma_what_a_command_starts(
    dispatch: Dispatch,
    task: Task,
    refused: PlayError,
    id: String,
)
    ensures
        dispatch.work == Work::Task(task) ==> task_of(Ok(dispatch)) == Ok::<
            Option<Task>,
            PlayError,
        >(Some(task)),
        !(dispatch.work is Task) ==> task_of(Ok(dispatch)) == Ok::<Option<Task>, PlayError>(None),
        task_of(Err(DispatchError::Play(refused))) == Err::<Option<Task>, PlayError>(refused),
        DispatchError::Play(refused).text() == refused.text(),
        DispatchError::UnknownImage(id).text() == "no uploaded image has the id "@
            + text::debug_quoted(id@),
{
}

/// Of two updates the later one counts.
pub proof fn lemma_the_newest_of_two(a: u64, b: u64)
    ensures
        newest(a, b) >= a,
        newest(a, b) >= b,
        newest(a, b) == a || newest(a, b) == b,
{
}

/// While something plays senders are told once a second.
pub proof fn lemma_how_often_senders_are_told()
    ensures
        PUSH_TICK_INTERVAL_MS == 1000,
{
}

/// Which updates are written, one by one: each that is not older than the
/// newest written before it.
pub proof fn lemma_which_updates_are_written(last: u64, generation: u64, later: Seq<u64>)
    ensures
        written(last, Seq::empty()).len() == 0,
        generation >= last ==> written(last, seq![generation] + later) == seq![generation]
            + written(generation, later),
        generation < last ==> written(last, seq![generation] + later) == written(last, later),
{
    assert((seq![generation] + later).drop_first() =~= later);
}

/// Decimal digits count ten times less from one to the next.
pub proof fn lemma_what_digits_stand_for(s: Seq<char>, c: char)
    ensures
        value(Seq::empty()) == 0,
        is_digit(c) <==> 48 <= c as u32 <= 57,
        is_digit(c) ==> value(s.push(c)) == 10 * value(s) + (c as u32 - 48),
{
    assert(s.push(c).drop_last() =~= s);
}

/// A port is read from digits alone, with or without a plus sign in front; a
/// text with anything else in it, without a digit, or for a number above 65535
/// is none.
pub proof fn lemma_what_a_port_is_read_from(digits: Seq<char>, i: int)
    requires
        digits.len() > 0,
        digits[0] != '+',
    ensures
        port_in(seq!['+'] + digits) == port_in(digits),
        0 <= i < digits.len() && !is_digit(digits[i]) ==> port_in(digits) is None,
        (forall|k: int| 0 <= k < digits.len() ==> is_digit(#[trigger] digits[k])) && value(digits)
            <= 65535 ==> port_in(digits) == Some(value(digits) as u16),
        value(digits) > 65535 ==> port_in(digits) is None,
        port_in(Seq::empty()) is None,
        port_in(seq!['+']) is None,
        port_in(seq!['+', '+'] + digits) is None,
{
    let twice = seq!['+', '+'] + digits;
    assert(twice[0] == '+');
    assert(twice.drop_first()[0] == '+');
    assert((seq!['+'] + digits).drop_first() =~= digits);
    assert(seq!['+'].drop_first() =~= Seq::<char>::empty());
}

} // verus!
