use chat_relay::codec::Packet;
use chat_relay::error::RelayError;
use chat_relay::session::RconSession;

fn response(request_id: i32) -> Packet {
    Packet { request_id, request_type: 2, payload: String::new() }
}

#[test]
fn login_frame_carries_password_under_id_zero() {
    let frame = RconSession::login_frame("pw").unwrap();
    assert_eq!(frame, vec![12, 0, 0, 0, 0, 0, 0, 0, 3, 0, 0, 0, b'p', b'w', 0, 0]);
}

#[test]
fn rejected_login_is_authentication_failure() {
    assert_eq!(RconSession::accept_login(&response(-1)).err(), Some(RelayError::AuthenticationFailed));
}

#[test]
fn commands_are_numbered_from_one() {
    let mut session = RconSession::accept_login(&response(0)).ok().unwrap();
    assert_eq!(session.next_request_id(), 1);
    let first = session.command_frame("list").unwrap();
    assert_eq!(&first[4..8], &[1, 0, 0, 0]);
    assert_eq!(&first[8..12], &[2, 0, 0, 0]);
    session.record_sent();
    let second = session.command_frame("list").unwrap();
    assert_eq!(&second[4..8], &[2, 0, 0, 0]);
    session.record_sent();
    session.record_sent();
    assert_eq!(session.next_request_id(), 4);
}

#[test]
fn unsent_command_keeps_its_number() {
    let session = RconSession::accept_login(&response(0)).ok().unwrap();
    let a = session.command_frame("a").unwrap();
    let b = session.command_frame("b").unwrap();
    assert_eq!(&a[4..8], &b[4..8]);
}
