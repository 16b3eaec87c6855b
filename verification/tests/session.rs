use arrpc_rs::ipc::server::{
    Session, SessionError, SessionEvent, SessionOutcome, SessionState, SessionStep,
};
use arrpc_rs::ipc::structs::{
    CloseCodes, CloseMessage, HandshakeMessage, IpcCommand, IpcFrame, IpcMessage,
};
use arrpc_rs::ipc::wire::DecodeError;
use serde_json::Value;

fn handshake(version: i32, client_id: &str) -> IpcMessage {
    IpcMessage::Handshake(HandshakeMessage { version, client_id: client_id.to_string() })
}

fn activity_frame(nonce: &str) -> IpcMessage {
    IpcMessage::Frame(IpcFrame {
        args: None,
        data: Some(Value::from(1)),
        cmd: "SET_ACTIVITY".to_string(),
        evt: Some("x".to_string()),
        nonce: nonce.to_string(),
    })
}

fn acknowledgement(nonce: &str) -> IpcMessage {
    IpcMessage::Frame(IpcFrame {
        args: None,
        data: None,
        cmd: "SET_ACTIVITY".to_string(),
        evt: None,
        nonce: nonce.to_string(),
    })
}

fn close_with(code: CloseCodes) -> IpcMessage {
    IpcMessage::Close(CloseMessage { code, message: String::new() })
}

fn silent(outcome: SessionOutcome) -> SessionStep {
    SessionStep { reply: None, forward: None, outcome }
}

fn active(socket_id: usize) -> Session {
    let mut session = Session::new(socket_id);
    session.handle(SessionEvent::Received(handshake(1, "abc")));
    assert_eq!(session.state(), SessionState::Active);
    session
}

#[test]
fn new_session_awaits_its_handshake() {
    let session = Session::new(4);
    assert_eq!(session.socket_id(), 4);
    assert_eq!(session.state(), SessionState::AwaitingHandshake);
    assert!(!session.handshake_done());
    assert_eq!(session.client_identity(), &None);
}

#[test]
fn valid_handshake_makes_the_session_active() {
    let mut session = Session::new(0);
    let step = session.handle(SessionEvent::Received(handshake(1, "abc")));
    assert_eq!(
        step,
        SessionStep {
            reply: None,
            forward: Some(handshake(1, "abc")),
            outcome: SessionOutcome::Continue
        }
    );
    assert_eq!(session.state(), SessionState::Active);
    assert!(session.handshake_done());
    assert_eq!(session.client_identity(), &Some("abc".to_string()));
    assert_eq!(session.socket_id(), 0);
}

#[test]
fn frame_before_handshake_ends_the_session_without_acknowledgement() {
    let mut session = Session::new(1);
    let step = session.handle(SessionEvent::Received(activity_frame("n1")));
    assert_eq!(step, silent(SessionOutcome::Failed(SessionError::FrameBeforeHandshake)));
    assert_eq!(session.state(), SessionState::Closed);
}

#[test]
fn frame_after_a_refused_handshake_is_not_acknowledged() {
    let mut session = Session::new(1);
    session.handle(SessionEvent::Received(handshake(2, "abc")));
    let step = session.handle(SessionEvent::Received(activity_frame("n1")));
    assert_eq!(step.reply, None);
    assert_eq!(step.forward, None);
    assert_eq!(session.state(), SessionState::Closed);
}

#[test]
fn frame_after_pings_but_no_handshake_is_not_acknowledged() {
    let mut session = Session::new(1);
    session.handle(SessionEvent::Received(IpcMessage::Ping(Value::Null)));
    session.handle(SessionEvent::Received(IpcMessage::Pong(Value::Null)));
    session.handle(SessionEvent::Command(IpcCommand::Frame(IpcFrame {
        args: None,
        data: None,
        cmd: "DISPATCH".to_string(),
        evt: None,
        nonce: String::new(),
    })));
    assert_eq!(session.state(), SessionState::AwaitingHandshake);
    let step = session.handle(SessionEvent::Received(activity_frame("n1")));
    assert_eq!(step, silent(SessionOutcome::Failed(SessionError::FrameBeforeHandshake)));
    assert_eq!(session.state(), SessionState::Closed);
}

#[test]
fn frame_on_an_active_session_is_acknowledged_and_handed_on() {
    let mut session = active(0);
    let step = session.handle(SessionEvent::Received(activity_frame("n1")));
    assert_eq!(
        step,
        SessionStep {
            reply: Some(acknowledgement("n1")),
            forward: Some(activity_frame("n1")),
            outcome: SessionOutcome::Continue
        }
    );
    assert_eq!(session.state(), SessionState::Active);
}

#[test]
fn acknowledgements_come_in_the_order_of_the_frames() {
    let mut session = active(0);
    let nonces = ["a", "b", "", "a"];
    for nonce in nonces {
        let step = session.handle(SessionEvent::Received(activity_frame(nonce)));
        assert_eq!(step.reply, Some(acknowledgement(nonce)));
    }
}

#[test]
fn second_handshake_ends_the_session() {
    let mut session = active(0);
    let step = session.handle(SessionEvent::Received(handshake(1, "abc")));
    assert_eq!(step, silent(SessionOutcome::Failed(SessionError::HandshakeTwice)));
    assert_eq!(session.state(), SessionState::Closed);
    assert_eq!(session.client_identity(), &Some("abc".to_string()));
}

#[test]
fn second_handshake_ends_the_session_even_if_it_is_invalid() {
    let mut session = active(0);
    let step = session.handle(SessionEvent::Received(handshake(7, "")));
    assert_eq!(step, silent(SessionOutcome::Failed(SessionError::HandshakeTwice)));
    assert_eq!(session.state(), SessionState::Closed);
}

#[test]
fn two_handshakes_always_end_the_session() {
    let handshakes = [(1, "abc"), (1, ""), (2, "abc"), (0, "")];
    for first in handshakes {
        for second in handshakes {
            let mut session = Session::new(0);
            session.handle(SessionEvent::Received(handshake(first.0, first.1)));
            let step = session.handle(SessionEvent::Received(handshake(second.0, second.1)));
            assert_eq!(session.state(), SessionState::Closed);
            assert_eq!(step.reply, None);
            assert_eq!(step.forward, None);
        }
    }
}

#[test]
fn wrong_version_is_answered_with_invalid_version() {
    for version in [0, 2, -1, i32::MAX, i32::MIN] {
        let mut session = Session::new(0);
        let step = session.handle(SessionEvent::Received(handshake(version, "abc")));
        assert_eq!(
            step,
            SessionStep {
                reply: Some(close_with(CloseCodes::InvalidVersion)),
                forward: None,
                outcome: SessionOutcome::Failed(SessionError::InvalidVersion(version)),
            }
        );
        assert_eq!(session.state(), SessionState::Closed);
        assert_eq!(session.client_identity(), &None);
    }
}

#[test]
fn empty_client_id_is_answered_with_invalid_client_id() {
    let mut session = Session::new(0);
    let step = session.handle(SessionEvent::Received(handshake(1, "")));
    assert_eq!(
        step,
        SessionStep {
            reply: Some(close_with(CloseCodes::InvalidClientID)),
            forward: None,
            outcome: SessionOutcome::Failed(SessionError::InvalidClientID),
        }
    );
    assert_eq!(session.state(), SessionState::Closed);
    assert_eq!(session.client_identity(), &None);
}

#[test]
fn version_is_checked_before_client_id() {
    let mut session = Session::new(0);
    let step = session.handle(SessionEvent::Received(handshake(3, "")));
    assert_eq!(step.reply, Some(close_with(CloseCodes::InvalidVersion)));
    assert_eq!(step.outcome, SessionOutcome::Failed(SessionError::InvalidVersion(3)));
}

#[test]
fn ping_is_answered_with_pong_in_any_state() {
    let payload = serde_json::from_str::<Value>("{\"t\":[1,2,3]}").unwrap();
    for mut session in [Session::new(0), active(1)] {
        let before = session.state();
        let step = session.handle(SessionEvent::Received(IpcMessage::Ping(payload.clone())));
        assert_eq!(
            step,
            SessionStep {
                reply: Some(IpcMessage::Pong(payload.clone())),
                forward: Some(IpcMessage::Ping(payload.clone())),
                outcome: SessionOutcome::Continue,
            }
        );
        assert_eq!(session.state(), before);
    }
}

#[test]
fn pong_is_handed_on_and_not_answered() {
    for mut session in [Session::new(0), active(1)] {
        let before = session.state();
        let step = session.handle(SessionEvent::Received(IpcMessage::Pong(Value::from(5))));
        assert_eq!(
            step,
            SessionStep {
                reply: None,
                forward: Some(IpcMessage::Pong(Value::from(5))),
                outcome: SessionOutcome::Continue,
            }
        );
        assert_eq!(session.state(), before);
    }
}

#[test]
fn close_is_handed_on_and_ends_the_session_in_good_order() {
    for mut session in [Session::new(0), active(1)] {
        let close =
            IpcMessage::Close(CloseMessage { code: CloseCodes::Abnormal, message: "x".to_string() });
        let step = session.handle(SessionEvent::Received(close.clone()));
        assert_eq!(
            step,
            SessionStep { reply: None, forward: Some(close), outcome: SessionOutcome::Closed }
        );
        assert_eq!(session.state(), SessionState::Closed);
    }
}

#[test]
fn frame_command_is_written_out() {
    let frame = IpcFrame {
        args: None,
        data: Some(Value::from(1)),
        cmd: "DISPATCH".to_string(),
        evt: Some("READY".to_string()),
        nonce: String::new(),
    };
    let mut session = active(0);
    let step = session.handle(SessionEvent::Command(IpcCommand::Frame(frame.clone())));
    assert_eq!(
        step,
        SessionStep {
            reply: Some(IpcMessage::Frame(frame)),
            forward: None,
            outcome: SessionOutcome::Continue
        }
    );
    assert_eq!(session.state(), SessionState::Active);
}

#[test]
fn close_command_writes_a_normal_close_and_ends_the_session() {
    for mut session in [Session::new(0), active(1)] {
        let step = session.handle(SessionEvent::Command(IpcCommand::Close));
        assert_eq!(
            step,
            SessionStep {
                reply: Some(close_with(CloseCodes::Normal)),
                forward: None,
                outcome: SessionOutcome::Closed
            }
        );
        assert_eq!(session.state(), SessionState::Closed);
    }
}

#[test]
fn undecodable_input_ends_the_session_without_reply() {
    let errors = [
        DecodeError::Truncated,
        DecodeError::InvalidMessageType(9),
        DecodeError::InvalidLength(-1),
        DecodeError::InvalidPayload,
    ];
    for error in errors {
        let mut session = active(0);
        let step = session.handle(SessionEvent::Undecodable(error));
        assert_eq!(step, silent(SessionOutcome::Failed(SessionError::Decode(error))));
        assert_eq!(session.state(), SessionState::Closed);
    }
}

#[test]
fn io_failure_ends_the_session() {
    let mut session = Session::new(0);
    let step = session.handle(SessionEvent::IoFailed);
    assert_eq!(step, silent(SessionOutcome::Failed(SessionError::Io)));
    assert_eq!(session.state(), SessionState::Closed);
}

#[test]
fn closed_session_takes_no_part_in_anything() {
    let events = [
        SessionEvent::Received(handshake(1, "abc")),
        SessionEvent::Received(activity_frame("n")),
        SessionEvent::Received(IpcMessage::Ping(Value::Null)),
        SessionEvent::Received(IpcMessage::Pong(Value::Null)),
        SessionEvent::Received(close_with(CloseCodes::Normal)),
        SessionEvent::Undecodable(DecodeError::Truncated),
        SessionEvent::Command(IpcCommand::Close),
        SessionEvent::IoFailed,
    ];
    for event in events {
        let mut session = active(3);
        session.handle(SessionEvent::Command(IpcCommand::Close));
        let step = session.handle(event);
        assert_eq!(step, silent(SessionOutcome::Closed));
        assert_eq!(session.state(), SessionState::Closed);
        assert_eq!(session.socket_id(), 3);
        assert_eq!(session.client_identity(), &Some("abc".to_string()));
    }
}

#[test]
fn lost_reply_ends_a_session_that_was_to_go_on() {
    let mut session = active(0);
    let step = session.handle(SessionEvent::Received(IpcMessage::Ping(Value::from(1))));
    assert_eq!(step.outcome, SessionOutcome::Continue);
    let rest = session.reply_lost(step);
    assert_eq!(rest, silent(SessionOutcome::Failed(SessionError::Io)));
    assert_eq!(session.state(), SessionState::Closed);
}

#[test]
fn lost_close_of_a_refused_handshake_is_given_up() {
    let mut session = Session::new(0);
    let step = session.handle(SessionEvent::Received(handshake(9, "abc")));
    let rest = session.reply_lost(step);
    assert_eq!(rest, silent(SessionOutcome::Failed(SessionError::InvalidVersion(9))));
    assert_eq!(session.state(), SessionState::Closed);
}

#[test]
fn lost_close_of_a_close_command_is_given_up() {
    let mut session = active(0);
    let step = session.handle(SessionEvent::Command(IpcCommand::Close));
    let rest = session.reply_lost(step);
    assert_eq!(rest, silent(SessionOutcome::Closed));
    assert_eq!(session.state(), SessionState::Closed);
}
