//! Framing and unframing over in-memory byte buffers.
//!
//! `FrameWriter` appends encoded frames to a byte sink; `FrameReader`
//! consumes frames from a byte source.  Both are exact: a written frame is
//! the header bytes followed by the payload verbatim, and a read either
//! returns a whole well-formed frame or one precisely determined error, never
//! a partial frame.  The transport that fills the source and drains the sink
//! is the caller's business.

use vstd::prelude::*;

use crate::sbmp::{be32_value, ContentType, Frame, Header, SBMPError, HEADER_LEN, PROTOCOL_VERSION};

verus! {

/// Appends every byte of `src` to `dst`, in order.
pub fn push_all(dst: &mut Vec<u8>, src: &[u8])
    ensures
        final(dst)@ == old(dst)@ + src@,
{
    let mut i: usize = 0;
    while i < src.len()
        invariant
            i <= src@.len(),
            dst@ == old(dst)@ + src@.take(i as int),
        decreases src@.len() - i,
    {
        dst.push(src[i]);
        i = i + 1;
        proof {
            assert(dst@ =~= old(dst)@ + src@.take(i as int));
        }
    }
    proof {
        assert(dst@ =~= old(dst)@ + src@);
    }
}

/// Writes frames into a byte sink.  The view is the bytes written so far.
pub struct FrameWriter {
    sink: Vec<u8>,
}

impl View for FrameWriter {
    type V = Seq<u8>;

    closed spec fn view(&self) -> Seq<u8> {
        self.sink@
    }
}

impl FrameWriter {
    /// Starts writing at the end of the given sink.
    pub fn new(stream: Vec<u8>) -> (w: FrameWriter)
        ensures
            w@ == stream@,
    {
        FrameWriter { sink: stream }
    }

    /// Appends the frame's six header bytes, then its payload verbatim.
    pub fn write_frame(&mut self, frame: Frame) -> (r: Result<(), SBMPError>)
        ensures
            r is Ok,
            final(self)@ == old(self)@ + frame.spec_bytes(),
    {
        let (header, payload) = frame.get();
        let n = header.content_length;

        self.sink.push(header.version);
        self.sink.push(header.content_type.tag());
        self.sink.push((n / 0x1000000) as u8);
        self.sink.push(((n / 0x10000) % 0x100) as u8);
        self.sink.push(((n / 0x100) % 0x100) as u8);
        self.sink.push((n % 0x100) as u8);
        push_all(&mut self.sink, payload.as_slice());

        proof {
            assert(self.sink@ =~= old(self)@ + frame.spec_bytes());
        }
        Ok(())
    }

    /// The bytes written so far.
    pub fn as_bytes(&self) -> (r: &Vec<u8>)
        ensures
            r@ == self@,
    {
        &self.sink
    }

    /// Hands the sink back and leaves the writer empty.
    pub fn take_bytes(&mut self) -> (r: Vec<u8>)
        ensures
            r@ == old(self)@,
            final(self)@ == Seq::<u8>::empty(),
    {
        let mut taken: Vec<u8> = Vec::new();
        core::mem::swap(&mut taken, &mut self.sink);
        taken
    }
}

/// What unframing finds at the front of a byte sequence: a header, or one
/// precisely determined error.
pub open spec fn spec_read_header(bytes: Seq<u8>) -> Result<Header, SBMPError> {
    if bytes.len() < HEADER_LEN {
        Err(SBMPError::UnexpectedEof)
    } else if bytes[0] != PROTOCOL_VERSION {
        Err(SBMPError::UnsupportedVersion)
    } else if ContentType::spec_from_tag(bytes[1]) is None {
        Err(SBMPError::UnknownContentType)
    } else {
        Ok(
            Header {
                version: bytes[0],
                content_type: ContentType::spec_from_tag(bytes[1])->0,
                content_length: be32_value(bytes[2], bytes[3], bytes[4], bytes[5]) as u32,
            },
        )
    }
}

/// What unframing a whole frame from the front of a byte sequence yields:
/// the header and the payload bytes, or one precisely determined error.
pub open spec fn spec_read_frame(bytes: Seq<u8>) -> Result<(Header, Seq<u8>), SBMPError> {
    match spec_read_header(bytes) {
        Err(e) => Err(e),
        Ok(h) => if bytes.len() - HEADER_LEN < h.content_length {
            Err(SBMPError::UnexpectedEof)
        } else {
            Ok((h, bytes.subrange(HEADER_LEN as int, HEADER_LEN + h.content_length)))
        },
    }
}

/// How many bytes unframing one frame consumes: nothing when the source ends
/// mid-header, the header alone when it ends mid-payload or the header is
/// refused, the whole frame otherwise.
pub open spec fn spec_read_frame_consumed(bytes: Seq<u8>) -> int {
    if bytes.len() < HEADER_LEN {
        0
    } else {
        match spec_read_frame(bytes) {
            Err(_) => HEADER_LEN as int,
            Ok((h, _)) => HEADER_LEN + h.content_length,
        }
    }
}

/// Reads frames from a byte source.  The view is the bytes not yet consumed.
pub struct FrameReader {
    buf: Vec<u8>,
    pos: usize,
}

impl View for FrameReader {
    type V = Seq<u8>;

    closed spec fn view(&self) -> Seq<u8> {
        self.buf@.skip(self.pos as int)
    }
}

impl FrameReader {
    /// The reading position never passes the end of the source.
    pub closed spec fn wf(&self) -> bool {
        self.pos <= self.buf@.len()
    }

    /// Starts reading at the front of the given source.
    pub fn new(stream: Vec<u8>) -> (r: FrameReader)
        ensures
            r.wf(),
            r@ == stream@,
    {
        let r = FrameReader { buf: stream, pos: 0 };
        proof {
            assert(r@ =~= r.buf@);
        }
        r
    }

    /// Appends bytes at the end of the source, as a transport would when
    /// more input arrives.
    pub fn feed(&mut self, bytes: &[u8])
        requires
            old(self).wf(),
        ensures
            final(self).wf(),
            final(self)@ == old(self)@ + bytes@,
    {
        push_all(&mut self.buf, bytes);
        proof {
            assert(self@ =~= old(self)@ + bytes@);
        }
    }

    /// Consumes the six header bytes at the front and validates them:
    /// too few bytes are an `UnexpectedEof` (and nothing is consumed), then
    /// the version byte must be `PROTOCOL_VERSION`, then the content-type
    /// byte must be a known tag.
    pub fn read_header(&mut self) -> (r: Result<Header, SBMPError>)
        requires
            old(self).wf(),
        ensures
            final(self).wf(),
            r == spec_read_header(old(self)@),
            old(self)@.len() < HEADER_LEN ==> final(self)@ == old(self)@,
            old(self)@.len() >= HEADER_LEN ==> final(self)@ == old(self)@.skip(HEADER_LEN as int),
            r is Ok ==> r->Ok_0.wf(),
    {
        if self.buf.len() - self.pos < HEADER_LEN {
            return Err(SBMPError::UnexpectedEof);
        }
        let b0 = self.buf[self.pos];
        let b1 = self.buf[self.pos + 1];
        let b2 = self.buf[self.pos + 2];
        let b3 = self.buf[self.pos + 3];
        let b4 = self.buf[self.pos + 4];
        let b5 = self.buf[self.pos + 5];
        self.pos = self.pos + HEADER_LEN;
        proof {
            assert(self@ =~= old(self)@.skip(HEADER_LEN as int));
        }

        if b0 != PROTOCOL_VERSION {
            return Err(SBMPError::UnsupportedVersion);
        }
        let content_type = match ContentType::try_from_tag(b1) {
            Ok(t) => t,
            Err(e) => {
                return Err(e);
            },
        };
        let content_length: u32 = (b2 as u32) * 0x1000000 + (b3 as u32) * 0x10000 + (b4 as u32)
            * 0x100 + (b5 as u32);
        Ok(Header { version: b0, content_type, content_length })
    }

    /// Consumes one whole frame at the front: the header, then exactly the
    /// declared number of payload bytes.  A source that ends before the
    /// declared length is available is an `UnexpectedEof`; no partial frame
    /// is ever returned.
    pub fn read_frame(&mut self) -> (r: Result<Frame, SBMPError>)
        requires
            old(self).wf(),
        ensures
            final(self).wf(),
            final(self)@ == old(self)@.skip(spec_read_frame_consumed(old(self)@)),
            r is Ok ==> spec_read_frame(old(self)@) == Ok::<_, SBMPError>(
                (r->Ok_0.spec_header(), r->Ok_0.spec_payload()),
            ) && r->Ok_0.wf(),
            r is Err ==> spec_read_frame(old(self)@) == Err::<(Header, Seq<u8>), _>(r->Err_0),
    {
        let header = match self.read_header() {
            Ok(h) => h,
            Err(e) => {
                proof {
                    if old(self)@.len() < HEADER_LEN {
                        assert(self@ =~= old(self)@.skip(0));
                    }
                }
                return Err(e);
            },
        };
        let ghost mid: Seq<u8> = self@;

        let len = header.content_length as usize;
        proof {
            assert(mid.len() == self.buf@.len() - self.pos);
        }
        if self.buf.len() - self.pos < len {
            return Err(SBMPError::UnexpectedEof);
        }

        let payload_slice = vstd::slice::slice_subrange(
            self.buf.as_slice(),
            self.pos,
            self.pos + len,
        );
        let payload = vstd::slice::slice_to_vec(payload_slice);
        self.pos = self.pos + len;

        let frame = Frame { header, payload };
        proof {
            assert(frame.spec_payload() =~= mid.subrange(0, len as int));
            assert(mid.subrange(0, len as int) =~= old(self)@.subrange(
                HEADER_LEN as int,
                HEADER_LEN + header.content_length,
            ));
            assert(self@ =~= mid.skip(len as int));
            assert(mid.skip(len as int) =~= old(self)@.skip(HEADER_LEN + header.content_length));
        }
        Ok(frame)
    }
}

/// Round trip: the bytes that framing a payload produces decode back to a
/// header carrying the same content type and declared length, followed by an
/// equal payload, and consume exactly the frame, leaving any trailing bytes.
pub proof fn lemma_frame_round_trip(content_type: ContentType, payload: Seq<u8>, rest: Seq<u8>)
    requires
        payload.len() <= u32::MAX,
    ensures
        ({
            let bytes = crate::sbmp::spec_frame_bytes(content_type, payload) + rest;
            &&& spec_read_frame(bytes) == Ok::<_, SBMPError>(
                (
                    Header {
                        version: PROTOCOL_VERSION,
                        content_type,
                        content_length: payload.len() as u32,
                    },
                    payload,
                ),
            )
            &&& spec_read_frame_consumed(bytes) == HEADER_LEN + payload.len()
            &&& bytes.skip(spec_read_frame_consumed(bytes)) == rest
        }),
{
    let n = payload.len() as u32;
    let bytes = crate::sbmp::spec_frame_bytes(content_type, payload) + rest;
    assert(bytes[0] == PROTOCOL_VERSION);
    assert(bytes[1] == content_type.spec_tag());
    assert(ContentType::spec_from_tag(content_type.spec_tag()) == Some(content_type));
    assert(bytes[2] == crate::sbmp::be32_bytes(n)[0]);
    assert(bytes[3] == crate::sbmp::be32_bytes(n)[1]);
    assert(bytes[4] == crate::sbmp::be32_bytes(n)[2]);
    assert(bytes[5] == crate::sbmp::be32_bytes(n)[3]);
    crate::sbmp::lemma_be32_round_trip(n);
    assert(be32_value(bytes[2], bytes[3], bytes[4], bytes[5]) == n);
    assert(bytes.subrange(HEADER_LEN as int, HEADER_LEN + n) =~= payload);
    assert(bytes.skip(HEADER_LEN + n) =~= rest);
}

/// The other direction of the round trip: whatever decodes as a frame
/// re-encodes to exactly the bytes consumed, so no two frames share an
/// encoding and nothing on the wire is lost or invented.
pub proof fn lemma_frame_bytes_faithful(bytes: Seq<u8>)
    requires
        spec_read_frame(bytes) is Ok,
    ensures
        ({
            let (h, p) = spec_read_frame(bytes)->Ok_0;
            h.spec_bytes() + p == bytes.take(spec_read_frame_consumed(bytes))
        }),
{
    let (h, p) = spec_read_frame(bytes)->Ok_0;
    let n = h.content_length;
    assert(n == be32_value(bytes[2], bytes[3], bytes[4], bytes[5]));
    assert(crate::sbmp::be32_bytes(n)[0] == bytes[2]) by {
        assert(n / 0x1000000 == bytes[2]);
    }
    assert(crate::sbmp::be32_bytes(n)[1] == bytes[3]) by {
        assert((n / 0x10000) % 0x100 == bytes[3]);
    }
    assert(crate::sbmp::be32_bytes(n)[2] == bytes[4]) by {
        assert((n / 0x100) % 0x100 == bytes[4]);
    }
    assert(crate::sbmp::be32_bytes(n)[3] == bytes[5]) by {
        assert(n % 0x100 == bytes[5]);
    }
    assert(h.spec_bytes() + p =~= bytes.take(spec_read_frame_consumed(bytes)));
}

/// A source whose version byte is not the supported one is refused with
/// `UnsupportedVersion`, and only the six header bytes are consumed: no
/// payload byte is touched.
pub proof fn lemma_unsupported_version(bytes: Seq<u8>)
    requires
        bytes.len() >= HEADER_LEN,
        bytes[0] != PROTOCOL_VERSION,
    ensures
        spec_read_frame(bytes) == Err::<(Header, Seq<u8>), _>(SBMPError::UnsupportedVersion),
        spec_read_frame_consumed(bytes) == HEADER_LEN,
{
}

/// A source that ends before the declared payload length is available is an
/// `UnexpectedEof`: no shorter frame is returned in its place.
pub proof fn lemma_truncated_payload(bytes: Seq<u8>)
    requires
        spec_read_header(bytes) is Ok,
        bytes.len() < HEADER_LEN + spec_read_header(bytes)->Ok_0.content_length,
    ensures
        spec_read_frame(bytes) == Err::<(Header, Seq<u8>), _>(SBMPError::UnexpectedEof),
{
}

} // verus!
