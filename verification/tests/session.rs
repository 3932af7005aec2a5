use douyu_danmu::frame::{encode, Error};
use douyu_danmu::session::{
    Action, Command, Event, Phase, Session, HEARTBEAT_SECS, JOIN_DELAY_SECS,
};

fn header_bytes(length: u32, length_echo: u32, message_type: u16) -> [u8; 12] {
    let mut bytes = [0u8; 12];
    bytes[0..4].copy_from_slice(&length.to_le_bytes());
    bytes[4..8].copy_from_slice(&length_echo.to_le_bytes());
    bytes[8..10].copy_from_slice(&message_type.to_le_bytes());
    bytes
}

fn streaming() -> Session {
    let mut session = Session::new();
    session.advance(Event::Opened);
    session.advance(Event::Sent);
    session.advance(Event::Elapsed);
    session.advance(Event::Sent);
    session
}

#[test]
fn session_starts_disconnected() {
    let session = Session::new();
    assert_eq!(session, Session { phase: Phase::Disconnected });
    assert_eq!(session.heartbeat(), None);
}

#[test]
fn session_runs_its_course() {
    let mut session = Session::new();
    assert_eq!(session.advance(Event::Opened), Action::Send(Command::Login));
    assert_eq!(session.phase, Phase::Connected);
    assert_eq!(session.advance(Event::Sent), Action::Wait(3));
    assert_eq!(session.phase, Phase::Authenticating);
    assert_eq!(session.advance(Event::Elapsed), Action::Send(Command::JoinGroup));
    assert_eq!(session.phase, Phase::Joined);
    assert_eq!(session.advance(Event::Sent), Action::Stream(45));
    assert_eq!(session.phase, Phase::Streaming);
    assert_eq!(session.advance(Event::Header(header_bytes(50, 50, 690))), Action::ReadPayload(42));
    assert_eq!(session.phase, Phase::Streaming);
    assert_eq!(session.advance(Event::Payload), Action::ReadHeader);
    assert_eq!(session.phase, Phase::Streaming);
    assert_eq!(session.advance(Event::ReadFailed), Action::Close);
    assert_eq!(session.phase, Phase::Terminated);
}

#[test]
fn delays_are_three_and_forty_five_seconds() {
    assert_eq!(JOIN_DELAY_SECS, 3);
    assert_eq!(HEARTBEAT_SECS, 45);
}

#[test]
fn unreachable_server_aborts() {
    let mut session = Session::new();
    assert_eq!(session.advance(Event::Refused), Action::Abort);
    assert_eq!(session.phase, Phase::Terminated);
}

#[test]
fn bad_header_ends_the_session() {
    let mut session = streaming();
    assert_eq!(
        session.advance(Event::Header(header_bytes(100, 99, 690))),
        Action::Fail(Error::InvalidHeader { length: 100, length_echo: 99, message_type: 690 })
    );
    assert_eq!(session.phase, Phase::Terminated);
    assert_eq!(session.heartbeat(), None);

    let mut session = streaming();
    assert_eq!(
        session.advance(Event::Header(header_bytes(20, 20, 689))),
        Action::Fail(Error::InvalidHeader { length: 20, length_echo: 20, message_type: 689 })
    );
    assert_eq!(session.phase, Phase::Terminated);

    let mut session = streaming();
    assert_eq!(
        session.advance(Event::Header(header_bytes(4, 4, 690))),
        Action::Fail(Error::NoRoomForPayload { length: 4 })
    );
    assert_eq!(session.phase, Phase::Terminated);
}

#[test]
fn terminated_session_stays_terminated() {
    let mut session = streaming();
    session.advance(Event::ReadFailed);
    for event in [
        Event::Opened,
        Event::Refused,
        Event::Sent,
        Event::Elapsed,
        Event::Header(header_bytes(50, 50, 690)),
        Event::Payload,
        Event::ReadFailed,
    ] {
        assert_eq!(session.advance(event), Action::Nothing);
        assert_eq!(session.phase, Phase::Terminated);
    }
}

#[test]
fn misplaced_events_change_nothing() {
    let mut session = Session::new();
    assert_eq!(session.advance(Event::Sent), Action::Nothing);
    assert_eq!(session.advance(Event::Header(header_bytes(50, 50, 690))), Action::Nothing);
    assert_eq!(session, Session { phase: Phase::Disconnected });
    session.advance(Event::Opened);
    assert_eq!(session.advance(Event::Elapsed), Action::Nothing);
    assert_eq!(session.phase, Phase::Connected);
}

#[test]
fn heartbeat_beats_only_while_streaming() {
    let mut session = Session::new();
    assert_eq!(session.heartbeat(), None);
    session.advance(Event::Opened);
    assert_eq!(session.heartbeat(), None);
    session.advance(Event::Sent);
    session.advance(Event::Elapsed);
    assert_eq!(session.heartbeat(), None);
    session.advance(Event::Sent);
    assert_eq!(session.heartbeat(), Some(Command::KeepAlive));
    session.advance(Event::ReadFailed);
    assert_eq!(session.heartbeat(), None);
}

#[test]
fn command_frames_carry_the_room() {
    assert_eq!(Command::Login.frame(606118), encode(b"type@=loginreq/roomid@=606118/"));
    assert_eq!(
        Command::JoinGroup.frame(606118),
        encode(b"type@=joingroup/rid@=606118/gid@=-9999/")
    );
    assert_eq!(Command::KeepAlive.frame(5), encode(b"type@=mrkl/"));
    assert_eq!(Command::Login.frame(5), encode(b"type@=loginreq/roomid@=5/"));
}
