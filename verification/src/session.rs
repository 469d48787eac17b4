//! The per-connection rules: the login handshake's validation and the
//! turning of an incoming frame into a broadcast message.
//!
//! The connection loop around these rules reads frames and talks to the hub;
//! everything it decides is here.  A login frame must carry UTF-8 text that
//! trims to an acceptable display name.  A mid-session frame is broadcast
//! tagged with the sender's name; a frame of the wrong content type, with
//! ill-formed text or blank after trimming is silently ignored and never
//! closes the connection.

use vstd::prelude::*;

use crate::client::{valid_username, Client, ClientModel};
use crate::codec::push_all;
use crate::sbmp::{ContentType, Frame};
use crate::text::{check_utf8, is_utf8, spec_trim, trim_bytes};

verus! {

/// How a connection loop ends: the peer went away (or failed the protocol),
/// or the hub's receiving end disappeared under a healthy connection, which
/// signals a shutdown in progress.
#[derive(Clone, Copy, Debug, PartialEq, Eq, Structural)]
pub enum ConnectionEnd {
    Normal,
    ReceiverDropped,
}

/// Why a login attempt is refused.
#[derive(Clone, Copy, Debug, PartialEq, Eq, Structural)]
pub enum LoginError {
    /// The login frame does not carry UTF-8 text.
    WrongContentType,
    /// The login frame's payload is not well-formed UTF-8.
    InvalidEncoding,
    /// The submitted name trims to nothing, or is too long.
    InvalidName,
}

/// A broadcast line: the sender's name in brackets, a colon, the text.
pub open spec fn tagged_message(username: Seq<u8>, text: Seq<u8>) -> Seq<u8> {
    seq![91u8] + username + seq![93u8, 58u8] + text
}

/// What a mid-session frame contributes to the room: the trimmed text tagged
/// with the sender's name, or nothing when the frame is not UTF-8 text or is
/// blank after trimming.
pub open spec fn spec_get_message(
    content_type: ContentType,
    payload: Seq<u8>,
    username: Seq<u8>,
) -> Option<Seq<u8>> {
    if content_type != ContentType::UTF8 {
        None
    } else if !is_utf8(payload) {
        None
    } else if spec_trim(payload).len() == 0 {
        None
    } else {
        Some(tagged_message(username, spec_trim(payload)))
    }
}

/// What a login frame yields: the trimmed display name, or the exact reason
/// it is refused.
pub open spec fn spec_login(content_type: ContentType, payload: Seq<u8>) -> Result<
    Seq<u8>,
    LoginError,
> {
    if content_type != ContentType::UTF8 {
        Err(LoginError::WrongContentType)
    } else if !is_utf8(payload) {
        Err(LoginError::InvalidEncoding)
    } else if !valid_username(payload) {
        Err(LoginError::InvalidName)
    } else {
        Ok(spec_trim(payload))
    }
}

/// Turns one decoded frame into the line to broadcast, tagged with the
/// sender's display name; yields nothing for a frame that is not UTF-8 text,
/// not well-formed, or blank after trimming — such frames are ignored, they
/// do not close the connection.
pub fn get_message(frame: Frame, username: &Vec<u8>) -> (r: Option<Vec<u8>>)
    ensures
        r is Some <==> spec_get_message(
            frame.spec_header().content_type,
            frame.spec_payload(),
            username@,
        ) is Some,
        r matches Some(m) ==> Some(m@) == spec_get_message(
            frame.spec_header().content_type,
            frame.spec_payload(),
            username@,
        ),
{
    if frame.get_header().content_type() != ContentType::UTF8 {
        return None;
    }
    let payload = frame.get_payload();
    if !check_utf8(payload.as_slice()) {
        return None;
    }
    let trimmed = trim_bytes(payload.as_slice());
    if trimmed.len() == 0 {
        return None;
    }

    let mut out: Vec<u8> = Vec::new();
    out.push(91);
    push_all(&mut out, username.as_slice());
    out.push(93);
    out.push(58);
    push_all(&mut out, trimmed.as_slice());
    proof {
        assert(out@ =~= tagged_message(username@, spec_trim(frame.spec_payload())));
    }
    Some(out)
}

/// The validating half of the login handshake: binds the submitted display
/// name to the client when the login frame is acceptable, and says exactly
/// why not otherwise, leaving the client unchanged.
pub fn accept_login(client: &mut Client, frame: Frame) -> (r: Result<(), LoginError>)
    ensures
        r is Ok <==> spec_login(frame.spec_header().content_type, frame.spec_payload()) is Ok,
        r is Ok ==> final(client)@ == (ClientModel {
            username: spec_trim(frame.spec_payload()),
            ..old(client)@
        }),
        r matches Err(e) ==> Err::<Seq<u8>, _>(e) == spec_login(
            frame.spec_header().content_type,
            frame.spec_payload(),
        ) && final(client)@ == old(client)@,
{
    if frame.get_header().content_type() != ContentType::UTF8 {
        return Err(LoginError::WrongContentType);
    }
    let payload = frame.get_payload();
    if !check_utf8(payload.as_slice()) {
        return Err(LoginError::InvalidEncoding);
    }
    if client.set_username(payload) {
        Ok(())
    } else {
        Err(LoginError::InvalidName)
    }
}

} // verus!
