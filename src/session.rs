//! The console session: login, and the numbering of the commands it sends.
use vstd::prelude::*;

use crate::codec::{frame_of, fits_frame, Packet, PacketView, COMMAND, LOGIN};
use crate::error::RelayError;

verus! {

/// The request id of the login frame.
pub const LOGIN_REQUEST_ID: i32 = 0;

/// The request id with which the console answers a rejected login.
pub const REJECTED_REQUEST_ID: i32 = -1;

/// A logged-in console session: the request id its next command carries.
#[derive(Debug)]
pub struct RconSession {
    next_request_id: i32,
}

/// The packet that logs in with `password`.
pub open spec fn login_view(password: Seq<char>) -> PacketView {
    PacketView { request_id: LOGIN_REQUEST_ID, request_type: LOGIN, payload: password }
}

/// The packet that sends `text` as the command numbered `id`.
pub open spec fn command_view(id: i32, text: Seq<char>) -> PacketView {
    PacketView { request_id: id, request_type: COMMAND, payload: text }
}

/// What encoding `p` gives: its frame, or `ProtocolViolation` when its size
/// does not fit the length field.
pub open spec fn encoded(p: PacketView, r: Result<Vec<u8>, RelayError>) -> bool {
    if fits_frame(p) {
        r matches Ok(v) && v@ == frame_of(p)
    } else {
        r == Err::<Vec<u8>, RelayError>(RelayError::ProtocolViolation)
    }
}

impl RconSession {
    /// The request id that the next command carries.
    pub closed spec fn next_id(&self) -> i32 {
        self.next_request_id
    }

    /// The request id that the next command carries.
    pub fn next_request_id(&self) -> (r: i32)
        ensures
            r == self.next_id(),
    {
        self.next_request_id
    }

    /// The frame that logs in with `password`, under request id 0.
    pub fn login_frame(password: &str) -> (r: Result<Vec<u8>, RelayError>)
        ensures
            encoded(login_view(password@), r),
    {
        let packet = Packet {
            request_id: LOGIN_REQUEST_ID,
            request_type: LOGIN,
            payload: password.to_owned(),
        };
        packet.write()
    }

    /// Judges the console's answer to the login: a reply numbered -1 rejects
    /// the credential; any other opens a session whose first command is
    /// numbered 1.
    pub fn accept_login(response: &Packet) -> (r: Result<RconSession, RelayError>)
        ensures
            r is Err <==> response.request_id == REJECTED_REQUEST_ID,
            r is Err ==> r == Err::<RconSession, RelayError>(RelayError::AuthenticationFailed),
            r matches Ok(s) ==> s.next_id() == 1,
    {
        if response.request_id == REJECTED_REQUEST_ID {
            Err(RelayError::AuthenticationFailed)
        } else {
            Ok(RconSession { next_request_id: 1 })
        }
    }

    /// The frame that sends `text` as the next command.
    pub fn command_frame(&self, text: &str) -> (r: Result<Vec<u8>, RelayError>)
        ensures
            encoded(command_view(self.next_id(), text@), r),
    {
        let packet = Packet {
            request_id: self.next_request_id,
            request_type: COMMAND,
            payload: text.to_owned(),
        };
        packet.write()
    }

    /// Records that the next command went out: the one after it is numbered
    /// one higher.
    pub fn record_sent(&mut self)
        requires
            old(self).next_id() < i32::MAX,
        ensures
            final(self).next_id() == old(self).next_id() + 1,
    {
        self.next_request_id = self.next_request_id + 1;
    }
}

/// Request numbering: when a session opened by a successful login (numbered
/// 1) is followed by sessions that each recorded one more successful send, the
/// command built from the `i`-th of them carries request id `i + 1`.
pub proof fn lemma_request_numbering(sessions: Seq<RconSession>, text: Seq<char>)
    requires
        sessions.len() > 0,
        sessions[0].next_id() == 1,
        forall|i: int|
            0 <= i < sessions.len() - 1 ==> #[trigger] sessions[i + 1].next_id() == sessions[i].next_id()
                + 1,
    ensures
        forall|i: int|
            0 <= i < sessions.len() ==> #[trigger] command_view(sessions[i].next_id(), text).request_id
                == i + 1,
    decreases sessions.len(),
{
    if sessions.len() > 1 {
        let init = sessions.drop_last();
        assert forall|i: int| 0 <= i < init.len() - 1 implies #[trigger] init[i + 1].next_id()
            == init[i].next_id() + 1 by {
            assert(init[i + 1] == sessions[i + 1]);
            assert(init[i] == sessions[i]);
        }
        lemma_request_numbering(init, text);
        assert forall|i: int| 0 <= i < sessions.len() implies #[trigger] command_view(
            sessions[i].next_id(),
            text,
        ).request_id == i + 1 by {
            if i < sessions.len() - 1 {
                assert(init[i] == sessions[i]);
                assert(command_view(init[i].next_id(), text).request_id == i + 1);
            } else {
                assert(init[i - 1] == sessions[i - 1]);
                assert(command_view(init[i - 1].next_id(), text).request_id == i);
            }
        }
    }
}

} // verus!
