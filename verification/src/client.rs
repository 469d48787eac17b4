//! One registered peer: its identity and its outbound frame buffer.
//!
//! The transport is not held here: a client's address is plain data, and what
//! would be written to its socket accumulates in an in-memory outbox of
//! encoded frames.  Whether the peer can still be written to is tracked by an
//! `open` mark; the connection layer clears it when the transport fails, and
//! a write to a closed client fails the way a broken socket would.

use vstd::prelude::*;

use crate::codec::FrameWriter;
use crate::sbmp::{spec_frame_bytes, ContentType, SBMPError};
use crate::text::{spec_trim, trim_bytes};

verus! {

/// The longest accepted display name, exclusive: a trimmed name of 32 bytes
/// or more is refused.
pub const USERNAME_LIMIT: usize = 32;

/// A peer's transport address, as plain data: host and port.
#[derive(Clone, Copy, Debug, PartialEq, Eq, Hash, Structural)]
pub struct Address {
    pub host: u32,
    pub port: u16,
}

/// What a client is, mathematically: its name, address, whether its
/// transport is still writable, and the frame bytes queued for it.
pub struct ClientModel {
    pub username: Seq<u8>,
    pub ip: Address,
    pub open: bool,
    pub outbox: Seq<u8>,
}

/// The display name a client carries before it logs in.
pub open spec fn guest_name() -> Seq<u8> {
    seq![71u8, 117u8, 101u8, 115u8, 116u8]
}

/// A display name is accepted when, after trimming, it is neither empty nor
/// `USERNAME_LIMIT` bytes or longer.
pub open spec fn valid_username(name: Seq<u8>) -> bool {
    0 < spec_trim(name).len() < USERNAME_LIMIT
}

/// One entry of the registry: a logged-in peer.
pub struct Client {
    username: Vec<u8>,
    ip: Address,
    writer: FrameWriter,
    open: bool,
}

impl View for Client {
    type V = ClientModel;

    closed spec fn view(&self) -> ClientModel {
        ClientModel {
            username: self.username@,
            ip: self.ip,
            open: self.open,
            outbox: self.writer@,
        }
    }
}

impl Client {
    /// A fresh, writable client at the given address, named as a guest and
    /// with nothing queued.
    pub fn new(ip: Address) -> (c: Client)
        ensures
            c@ == (ClientModel { username: guest_name(), ip, open: true, outbox: Seq::<u8>::empty() }),
    {
        let mut name: Vec<u8> = Vec::new();
        name.push(71);
        name.push(117);
        name.push(101);
        name.push(115);
        name.push(116);
        proof {
            assert(name@ =~= guest_name());
        }
        let c = Client { username: name, ip, writer: FrameWriter::new(Vec::new()), open: true };
        proof {
            assert(c@.outbox =~= Seq::<u8>::empty());
        }
        c
    }

    pub fn ip(&self) -> (r: Address)
        ensures
            r == self@.ip,
    {
        self.ip
    }

    pub fn username(&self) -> (r: &Vec<u8>)
        ensures
            r@ == self@.username,
    {
        &self.username
    }

    pub fn is_open(&self) -> (r: bool)
        ensures
            r == self@.open,
    {
        self.open
    }

    /// Queues one UTF-8 frame around `s` for this peer.  Fails with
    /// `IoError` when the transport is gone, with `PayloadTooLarge` when `s`
    /// cannot be framed; either failure leaves the client unchanged.
    pub fn write(&mut self, s: &[u8]) -> (r: Result<(), SBMPError>)
        ensures
            !old(self)@.open ==> r == Err::<(), _>(SBMPError::IoError) && final(self)@ == old(
                self,
            )@,
            old(self)@.open && s@.len() > u32::MAX ==> r == Err::<(), _>(
                SBMPError::PayloadTooLarge,
            ) && final(self)@ == old(self)@,
            old(self)@.open && s@.len() <= u32::MAX ==> r is Ok && final(self)@ == (ClientModel {
                outbox: old(self)@.outbox + spec_frame_bytes(ContentType::UTF8, s@),
                ..old(self)@
            }),
    {
        if !self.open {
            return Err(SBMPError::IoError);
        }
        let frame = match crate::sbmp::build_frame(ContentType::UTF8, s) {
            Ok(f) => f,
            Err(e) => {
                return Err(e);
            },
        };
        match self.writer.write_frame(frame) {
            Ok(()) => Ok(()),
            Err(e) => Err(e),
        }
    }

    /// Renames the client when the submitted name is acceptable: the name is
    /// trimmed, and refused if blank or too long for the protocol's limit.
    pub fn set_username(&mut self, username: Vec<u8>) -> (r: bool)
        ensures
            r == valid_username(username@),
            r ==> final(self)@ == (ClientModel { username: spec_trim(username@), ..old(self)@ }),
            !r ==> final(self)@ == old(self)@,
    {
        let trimmed = trim_bytes(username.as_slice());
        if trimmed.len() == 0 || trimmed.len() >= USERNAME_LIMIT {
            return false;
        }
        self.username = trimmed;
        true
    }

    /// Marks the transport as gone; later writes fail as a broken socket
    /// would.
    pub fn close(&mut self)
        ensures
            final(self)@ == (ClientModel { open: false, ..old(self)@ }),
    {
        self.open = false;
    }

    /// The frame bytes queued for this peer.
    pub fn outbox(&self) -> (r: &Vec<u8>)
        ensures
            r@ == self@.outbox,
    {
        self.writer.as_bytes()
    }

    /// Hands the queued frame bytes to the transport layer and leaves the
    /// outbox empty.
    pub fn take_outbox(&mut self) -> (r: Vec<u8>)
        ensures
            r@ == old(self)@.outbox,
            final(self)@ == (ClientModel { outbox: Seq::<u8>::empty(), ..old(self)@ }),
    {
        self.writer.take_bytes()
    }
}

} // verus!
