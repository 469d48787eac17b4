//! Frame, header and error types of the simple binary messaging protocol.
//!
//! A frame on the wire is
//! ```text
//! +---------+--------------+----------------+----------------+
//! | 1 byte  | 1 byte       | 4 bytes        | N bytes        |
//! | version | content type | length (BE)    | payload        |
//! +---------+--------------+----------------+----------------+
//! ```
//! The only supported version is `PROTOCOL_VERSION`; the only known content
//! type is UTF-8 text, tagged `UTF8_TAG`.  The length field is a big-endian
//! 32-bit unsigned integer, so a payload longer than `u32::MAX` bytes cannot
//! be framed.

use vstd::prelude::*;

verus! {

/// The single protocol version this codec supports.
pub const PROTOCOL_VERSION: u8 = 1;

/// Wire tag of UTF-8 text payloads; all other tag bytes are reserved.
pub const UTF8_TAG: u8 = 0;

/// Number of bytes in an encoded header.
pub const HEADER_LEN: usize = 6;

/// The content types a frame can carry.  Only UTF-8 text exists today;
/// further tag bytes are reserved and rejected with `UnknownContentType`.
#[derive(Clone, Copy, Debug, PartialEq, Eq, Structural)]
pub enum ContentType {
    UTF8,
}

/// Everything that can go wrong when framing or unframing bytes.
#[derive(Clone, Copy, Debug, PartialEq, Eq, Structural)]
pub enum SBMPError {
    /// A header's version byte is not `PROTOCOL_VERSION`.
    UnsupportedVersion,
    /// A header's content-type byte has no known mapping.
    UnknownContentType,
    /// A payload is too long for the 32-bit length field.
    PayloadTooLarge,
    /// A frame's payload does not have the length its header declares.
    LengthMismatch,
    /// The byte source ended mid-header or mid-payload.
    UnexpectedEof,
    /// The underlying transport failed (used by the connection layer;
    /// unframing an in-memory buffer never produces it).
    IoError,
}

impl ContentType {
    /// The tag byte this content type is encoded as.
    pub open spec fn spec_tag(self) -> u8 {
        match self {
            ContentType::UTF8 => UTF8_TAG,
        }
    }

    /// The content type a tag byte decodes to, if any.
    pub open spec fn spec_from_tag(b: u8) -> Option<ContentType> {
        if b == UTF8_TAG {
            Some(ContentType::UTF8)
        } else {
            None
        }
    }

    pub fn tag(self) -> (r: u8)
        ensures
            r == self.spec_tag(),
    {
        match self {
            ContentType::UTF8 => UTF8_TAG,
        }
    }

    pub fn try_from_tag(b: u8) -> (r: Result<ContentType, SBMPError>)
        ensures
            ContentType::spec_from_tag(b) is Some <==> r is Ok,
            r is Ok ==> r->Ok_0 == ContentType::spec_from_tag(b)->0,
            r is Err ==> r->Err_0 == SBMPError::UnknownContentType,
    {
        if b == UTF8_TAG {
            Ok(ContentType::UTF8)
        } else {
            Err(SBMPError::UnknownContentType)
        }
    }
}

/// The four big-endian bytes of a 32-bit length field.
pub open spec fn be32_bytes(n: u32) -> Seq<u8> {
    seq![
        (n / 0x1000000) as u8,
        ((n / 0x10000) % 0x100) as u8,
        ((n / 0x100) % 0x100) as u8,
        (n % 0x100) as u8,
    ]
}

/// The value four big-endian bytes stand for.
pub open spec fn be32_value(b0: u8, b1: u8, b2: u8, b3: u8) -> int {
    b0 * 0x1000000 + b1 * 0x10000 + b2 * 0x100 + b3
}

/// Reading back the four bytes of a length field yields the length.
pub proof fn lemma_be32_round_trip(n: u32)
    ensures
        be32_value(
            be32_bytes(n)[0],
            be32_bytes(n)[1],
            be32_bytes(n)[2],
            be32_bytes(n)[3],
        ) == n,
{
}

/// The fixed-size prefix of a frame: version, content type, payload length.
#[derive(Clone, Copy, Debug, PartialEq, Eq, Structural)]
pub struct Header {
    pub version: u8,
    pub content_type: ContentType,
    pub content_length: u32,
}

impl Header {
    /// A header is well formed when it carries the supported version.
    pub open spec fn wf(self) -> bool {
        self.version == PROTOCOL_VERSION
    }

    pub open spec fn spec_version(self) -> u8 {
        self.version
    }

    pub open spec fn spec_content_type(self) -> ContentType {
        self.content_type
    }

    pub open spec fn spec_content_length(self) -> u32 {
        self.content_length
    }

    /// The six bytes this header is encoded as.
    pub open spec fn spec_bytes(self) -> Seq<u8> {
        seq![self.version, self.content_type.spec_tag()] + be32_bytes(self.content_length)
    }

    /// Validates the version byte; any other version is refused, so every
    /// header that exists is well formed.
    pub fn try_new(version: u8, content_type: ContentType, content_length: u32) -> (r: Result<
        Header,
        SBMPError,
    >)
        ensures
            r is Ok <==> version == PROTOCOL_VERSION,
            r is Ok ==> r->Ok_0 == (Header { version, content_type, content_length }),
            r is Err ==> r->Err_0 == SBMPError::UnsupportedVersion,
    {
        if version == PROTOCOL_VERSION {
            Ok(Header { version, content_type, content_length })
        } else {
            Err(SBMPError::UnsupportedVersion)
        }
    }

    pub fn version(&self) -> (r: u8)
        ensures
            r == self.spec_version(),
    {
        self.version
    }

    pub fn content_type(&self) -> (r: ContentType)
        ensures
            r == self.spec_content_type(),
    {
        self.content_type
    }

    pub fn content_len(&self) -> (r: usize)
        ensures
            r == self.spec_content_length(),
    {
        self.content_length as usize
    }
}

/// One complete protocol message: a header and the payload it describes.
#[derive(Debug)]
pub struct Frame {
    pub header: Header,
    pub payload: Vec<u8>,
}

impl Frame {
    /// A frame is well formed when its header is and the payload has exactly
    /// the declared length.
    pub open spec fn wf(self) -> bool {
        &&& self.header.wf()
        &&& self.payload@.len() == self.header.content_length
    }

    pub open spec fn spec_header(self) -> Header {
        self.header
    }

    pub open spec fn spec_payload(self) -> Seq<u8> {
        self.payload@
    }

    /// The bytes this frame is encoded as: header, then payload verbatim.
    pub open spec fn spec_bytes(self) -> Seq<u8> {
        self.header.spec_bytes() + self.payload@
    }

    /// Pairs a header with a payload, refusing a stale version and a payload
    /// whose length differs from the declared one.
    pub fn try_new(header: Header, payload: Vec<u8>) -> (r: Result<Frame, SBMPError>)
        ensures
            r is Ok <==> header.wf() && payload@.len() == header.content_length,
            r is Ok ==> r->Ok_0 == (Frame { header, payload }) && r->Ok_0.wf(),
            r is Err && !header.wf() ==> r->Err_0 == SBMPError::UnsupportedVersion,
            r is Err && header.wf() ==> r->Err_0 == SBMPError::LengthMismatch,
    {
        if header.version != PROTOCOL_VERSION {
            Err(SBMPError::UnsupportedVersion)
        } else if payload.len() != header.content_length as usize {
            Err(SBMPError::LengthMismatch)
        } else {
            Ok(Frame { header, payload })
        }
    }

    pub fn get_header(&self) -> (r: Header)
        ensures
            r == self.spec_header(),
    {
        self.header
    }

    pub fn get_payload(self) -> (r: Vec<u8>)
        ensures
            r@ == self.spec_payload(),
    {
        self.payload
    }

    /// Splits the frame into its header and payload.
    pub fn get(self) -> (r: (Header, Vec<u8>))
        ensures
            r.0 == self.spec_header(),
            r.1@ == self.spec_payload(),
    {
        (self.header, self.payload)
    }
}

/// The bytes that framing a payload under a content type produces.
pub open spec fn spec_frame_bytes(content_type: ContentType, payload: Seq<u8>) -> Seq<u8> {
    seq![PROTOCOL_VERSION, content_type.spec_tag()] + be32_bytes(payload.len() as u32) + payload
}

/// Builds a well-formed frame around a payload, or refuses a payload too
/// long for the 32-bit length field.
pub fn build_frame(content_type: ContentType, payload: &[u8]) -> (r: Result<Frame, SBMPError>)
    ensures
        r is Ok <==> payload@.len() <= u32::MAX,
        r is Ok ==> {
            &&& r->Ok_0.wf()
            &&& r->Ok_0.spec_header() == (Header {
                version: PROTOCOL_VERSION,
                content_type,
                content_length: payload@.len() as u32,
            })
            &&& r->Ok_0.spec_payload() == payload@
            &&& r->Ok_0.spec_bytes() == spec_frame_bytes(content_type, payload@)
        },
        r is Err ==> r->Err_0 == SBMPError::PayloadTooLarge,
{
    if payload.len() as u64 > u32::MAX as u64 {
        Err(SBMPError::PayloadTooLarge)
    } else {
        let header = Header {
            version: PROTOCOL_VERSION,
            content_type,
            content_length: payload.len() as u32,
        };
        let owned = vstd::slice::slice_to_vec(payload);
        Ok(Frame { header, payload: owned })
    }
}

} // verus!
