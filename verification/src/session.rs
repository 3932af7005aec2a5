//! The session's decisions: which command goes out when, what follows a
//! header, and when the session ends.
//!
//! The session itself does no input or output. Its owner opens the
//! connection, writes, waits and reads, reports each outcome as an
//! [`Event`], and carries out the [`Action`] it gets back.

use vstd::prelude::*;
use crate::command::{
    join_group_frame, join_group_text, keep_alive_frame, keep_alive_text, login_frame, login_text,
};
use crate::frame::{frame_of, header_of, Error, Header};

verus! {

/// Seconds between the login and the joining of the group.
pub const JOIN_DELAY_SECS: u64 = 3;

/// Seconds between two keep-alive commands.
pub const HEARTBEAT_SECS: u64 = 45;

/// Where a session stands.
#[derive(Clone, Copy, Debug, PartialEq, Eq, Structural)]
pub enum Phase {
    Disconnected,
    Connected,
    Authenticating,
    Joined,
    Streaming,
    Terminated,
}

/// The commands a client sends.
#[derive(Clone, Copy, Debug, PartialEq, Eq, Structural)]
pub enum Command {
    Login,
    JoinGroup,
    KeepAlive,
}

/// What the session's owner reports.
#[derive(Clone, Copy, Debug, PartialEq, Eq)]
pub enum Event {
    /// The connection stands.
    Opened,
    /// The server could not be reached.
    Refused,
    /// The command that was asked for has been handed to the connection.
    Sent,
    /// The wait that was asked for is over.
    Elapsed,
    /// The twelve bytes of a header have arrived.
    Header([u8; 12]),
    /// The payload that was asked for has arrived.
    Payload,
    /// The connection failed or closed while reading.
    ReadFailed,
}

/// What the session's owner is to do next.
#[derive(Clone, Copy, Debug, PartialEq, Eq, Structural)]
pub enum Action {
    /// Write the frame of this command.
    Send(Command),
    /// Wait this many seconds.
    Wait(u64),
    /// Start the heartbeat, which wakes every so many seconds, and read the
    /// first header.
    Stream(u64),
    /// Read the next header.
    ReadHeader,
    /// Read this many bytes of payload.
    ReadPayload(usize),
    /// Give up: there is no connection.
    Abort,
    /// End the session: the stream broke the protocol.
    Fail(Error),
    /// End the session: nothing more can be read.
    Close,
    /// The event has no place in this phase; nothing changes.
    Nothing,
}

/// How far a phase is along the session's course.
pub open spec fn rank(phase: Phase) -> nat {
    match phase {
        Phase::Disconnected => 0,
        Phase::Connected => 1,
        Phase::Authenticating => 2,
        Phase::Joined => 3,
        Phase::Streaming => 4,
        Phase::Terminated => 5,
    }
}

/// The phase and the action that follow an event.
pub open spec fn transition(phase: Phase, event: Event) -> (Phase, Action) {
    match (phase, event) {
        (Phase::Disconnected, Event::Opened) => (Phase::Connected, Action::Send(Command::Login)),
        (Phase::Disconnected, Event::Refused) => (Phase::Terminated, Action::Abort),
        (Phase::Connected, Event::Sent) => (Phase::Authenticating, Action::Wait(JOIN_DELAY_SECS)),
        (Phase::Authenticating, Event::Elapsed) => (
            Phase::Joined,
            Action::Send(Command::JoinGroup),
        ),
        (Phase::Joined, Event::Sent) => (Phase::Streaming, Action::Stream(HEARTBEAT_SECS)),
        (Phase::Streaming, Event::Header(bytes)) => match header_of(bytes@).plan() {
            Ok(n) => (Phase::Streaming, Action::ReadPayload(n)),
            Err(e) => (Phase::Terminated, Action::Fail(e)),
        },
        (Phase::Streaming, Event::Payload) => (Phase::Streaming, Action::ReadHeader),
        (Phase::Streaming, Event::ReadFailed) => (Phase::Terminated, Action::Close),
        _ => (phase, Action::Nothing),
    }
}

/// The text of a command for a room.
pub open spec fn command_text(command: Command, room_id: int) -> Seq<u8> {
    match command {
        Command::Login => login_text(room_id),
        Command::JoinGroup => join_group_text(room_id),
        Command::KeepAlive => keep_alive_text(),
    }
}

/// What the heartbeat does when it wakes: it sends the keep-alive command
/// while the session streams, and ends otherwise.
pub open spec fn heartbeat_of(phase: Phase) -> Option<Command> {
    if phase == Phase::Streaming {
        Some(Command::KeepAlive)
    } else {
        None
    }
}

/// A session with the server.
#[derive(Clone, Copy, Debug, PartialEq, Eq, Structural)]
pub struct Session {
    pub phase: Phase,
}

impl Command {
    /// The frame that carries this command for a room.
    pub fn frame(self, room_id: i32) -> (frame: Vec<u8>)
        ensures
            frame@ == frame_of(command_text(self, room_id as int)),
    {
        match self {
            Command::Login => login_frame(room_id),
            Command::JoinGroup => join_group_frame(room_id),
            Command::KeepAlive => keep_alive_frame(),
        }
    }
}

impl Session {
    /// A session that is not yet connected.
    pub fn new() -> (session: Session)
        ensures
            session == (Session { phase: Phase::Disconnected }),
    {
        Session { phase: Phase::Disconnected }
    }

    /// Takes an event, moves to the phase that follows and says what to do
    /// next.
    pub fn advance(&mut self, event: Event) -> (action: Action)
        ensures
            (final(self).phase, action) == transition(old(self).phase, event),
    {
        let (phase, action) = match (self.phase, event) {
            (Phase::Disconnected, Event::Opened) => (
                Phase::Connected,
                Action::Send(Command::Login),
            ),
            (Phase::Disconnected, Event::Refused) => (Phase::Terminated, Action::Abort),
            (Phase::Connected, Event::Sent) => (
                Phase::Authenticating,
                Action::Wait(JOIN_DELAY_SECS),
            ),
            (Phase::Authenticating, Event::Elapsed) => (
                Phase::Joined,
                Action::Send(Command::JoinGroup),
            ),
            (Phase::Joined, Event::Sent) => (Phase::Streaming, Action::Stream(HEARTBEAT_SECS)),
            (Phase::Streaming, Event::Header(bytes)) => match Header::parse(&bytes).read_plan() {
                Ok(n) => (Phase::Streaming, Action::ReadPayload(n)),
                Err(e) => (Phase::Terminated, Action::Fail(e)),
            },
            (Phase::Streaming, Event::Payload) => (Phase::Streaming, Action::ReadHeader),
            (Phase::Streaming, Event::ReadFailed) => (Phase::Terminated, Action::Close),
            (phase, _) => (phase, Action::Nothing),
        };
        self.phase = phase;
        action
    }

    /// What the heartbeat does when it wakes: `Some` command to send while
    /// the session streams, `None` to end.
    pub fn heartbeat(&self) -> (beat: Option<Command>)
        ensures
            beat == heartbeat_of(self.phase),
    {
        match self.phase {
            Phase::Streaming => Some(Command::KeepAlive),
            _ => None,
        }
    }
}

/// No event takes a session back: the phase stays or moves on.
pub proof fn lemma_forward(phase: Phase, event: Event)
    ensures
        rank(transition(phase, event).0) >= rank(phase),
{
}

/// A session that has ended stays ended and asks for nothing.
pub proof fn lemma_terminated_stays(event: Event)
    ensures
        transition(Phase::Terminated, event) == (Phase::Terminated, Action::Nothing),
{
}

/// A session ends on an action that says so, and on no other.
pub proof fn lemma_end(phase: Phase, event: Event)
    requires
        phase != Phase::Terminated,
    ensures
        transition(phase, event).0 == Phase::Terminated <==> (transition(phase, event).1 is Abort
            || transition(phase, event).1 is Fail || transition(phase, event).1 is Close),
{
}

/// While streaming, a header is followed by its payload exactly when it is
/// sound and leaves room for one; any other header ends the session with
/// the fields that were read.
pub proof fn lemma_header_decides(bytes: [u8; 12])
    ensures
        transition(Phase::Streaming, Event::Header(bytes)).0 == Phase::Streaming <==> header_of(
            bytes@,
        ).valid() && header_of(bytes@).length >= 8,
        !header_of(bytes@).valid() ==> transition(Phase::Streaming, Event::Header(bytes)).1
            == Action::Fail(
            Error::InvalidHeader {
                length: header_of(bytes@).length,
                length_echo: header_of(bytes@).length_echo,
                message_type: header_of(bytes@).message_type,
            },
        ),
{
}

} // verus!
