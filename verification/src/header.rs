//! The header that opens every control message, and the ways in which a
//! message can fail to decode.

use crate::ctrl_type::{CtrlType, ResponseError};
use crate::wire::{
    get_u32, get_u64, lemma_u32_at_window, lemma_u32_round_trip, lemma_u64_at_window,
    lemma_u64_round_trip, put_u32, put_u64, u32_at, u32_bytes, u64_at, u64_bytes,
};
use vstd::prelude::*;

verus! {

/// Flag bit of a header that asks the device for a fence.
pub const FLAG_FENCE: u32 = 1;

/// Why bytes are not a message.
#[derive(Clone, Copy, Debug, PartialEq, Eq, Structural)]
pub enum DecodeError {
    /// Fewer bytes were given than the message takes.
    Truncated,
    /// The command tag holds a value that no tag has.
    UnknownCtrlType(u32),
    /// The format holds a value that no pixel format has.
    UnknownFormat(u32),
}

/// The header that opens every request and every response.
#[derive(Clone, Copy, Debug, PartialEq, Eq)]
pub struct CtrlHeader {
    /// Which command or response this is.
    pub ctrl_type: CtrlType,
    /// Request flags; bit 0 asks for a fence.
    pub flags: u32,
    /// Identifies the request when the fence flag is set; the device echoes it.
    pub fence_id: u64,
    /// Rendering context; unused by the 2D commands.
    pub ctx_id: u32,
    /// Reserved; zero in every message that this layer builds.
    pub padding: u32,
}

impl CtrlHeader {
    /// Number of bytes that the message takes on the wire.
    pub const SIZE: usize = 24;

    /// The bytes of the message: its fields in order, with nothing between them.
    pub open spec fn wire(self) -> Seq<u8> {
        u32_bytes(self.ctrl_type.spec_code())
            + u32_bytes(self.flags)
            + u64_bytes(self.fence_id)
            + u32_bytes(self.ctx_id)
            + u32_bytes(self.padding)
    }

    /// Every padding field of the message is zero.
    pub open spec fn zero_padded(self) -> bool {
        self.padding == 0
    }

    /// The message whose fields stand in `bytes` from offset `at` on.
    pub open spec fn parse_at(bytes: Seq<u8>, at: int) -> Result<CtrlHeader, DecodeError> {
        match CtrlType::spec_from_code(u32_at(bytes, at)) {
            None => Err(DecodeError::UnknownCtrlType(u32_at(bytes, at))),
            Some(ctrl_type) => {
                Ok(CtrlHeader {
                    ctrl_type,
                    flags: u32_at(bytes, at + 4),
                    fence_id: u64_at(bytes, at + 8),
                    ctx_id: u32_at(bytes, at + 16),
                    padding: u32_at(bytes, at + 20),
                })
            },
        }
    }

    /// What decoding `bytes` gives: the message at their start, or the
    /// reason why there is none.
    pub open spec fn parse(bytes: Seq<u8>) -> Result<CtrlHeader, DecodeError> {
        if bytes.len() < 24 {
            Err(DecodeError::Truncated)
        } else {
            Self::parse_at(bytes, 0)
        }
    }

    /// A message with the given fields and zeroed padding.
    pub fn new(ctrl_type: CtrlType, flags: u32, fence_id: u64, ctx_id: u32) -> (message: CtrlHeader)
        ensures
            message == (CtrlHeader { ctrl_type, flags, fence_id, ctx_id, padding: 0 }),
    {
        CtrlHeader { ctrl_type, flags, fence_id, ctx_id, padding: 0 }
    }

    /// Appends the bytes of the message to `out`.
    pub fn encode_into(&self, out: &mut Vec<u8>)
        ensures
            final(out)@ == old(out)@ + self.wire(),
    {
        put_u32(out, self.ctrl_type.code());
        put_u32(out, self.flags);
        put_u64(out, self.fence_id);
        put_u32(out, self.ctx_id);
        put_u32(out, self.padding);
        assert(out@ =~= old(out)@ + self.wire());
    }

    /// The bytes of the message.
    pub fn encode(&self) -> (bytes: Vec<u8>)
        ensures
            bytes@ == self.wire(),
            bytes@.len() == 24,
    {
        let mut bytes: Vec<u8> = Vec::new();
        self.encode_into(&mut bytes);
        proof {
            self.lemma_round_trip();
        }
        assert(bytes@ =~= self.wire());
        bytes
    }

    /// Reads the message that stands in `bytes` from offset `at` on.
    pub fn decode_at(bytes: &[u8], at: usize) -> (message: Result<CtrlHeader, DecodeError>)
        requires
            at + 24 <= bytes.len(),
        ensures
            message == Self::parse_at(bytes@, at as int),
    {
        let ctrl_type_code: u32 = get_u32(bytes, at);
        let ctrl_type = match CtrlType::from_code(ctrl_type_code) {
            Some(tag) => tag,
            None => return Err(DecodeError::UnknownCtrlType(ctrl_type_code)),
        };
        let flags: u32 = get_u32(bytes, at + 4);
        let fence_id: u64 = get_u64(bytes, at + 8);
        let ctx_id: u32 = get_u32(bytes, at + 16);
        let padding: u32 = get_u32(bytes, at + 20);
        Ok(CtrlHeader { ctrl_type, flags, fence_id, ctx_id, padding })
    }

    /// Reads the message at the start of `bytes`. Fails with `Truncated`
    /// exactly when fewer than 24 bytes are given; bytes after the message
    /// are not looked at.
    pub fn decode(bytes: &[u8]) -> (message: Result<CtrlHeader, DecodeError>)
        ensures
            message == Self::parse(bytes@),
    {
        if bytes.len() < 24 {
            return Err(DecodeError::Truncated);
        }
        Self::decode_at(bytes, 0)
    }

    /// Reading at an offset looks at the 24 bytes from that offset on and at
    /// no others.
    pub proof fn lemma_window(bytes: Seq<u8>, at: int)
        requires
            0 <= at,
            at + 24 <= bytes.len(),
        ensures
            Self::parse_at(bytes, at) == Self::parse_at(bytes.subrange(at, at + 24), 0),
    {
        lemma_u32_at_window(bytes, at, 24, 0);
        lemma_u32_at_window(bytes, at, 24, 4);
        lemma_u64_at_window(bytes, at, 24, 8);
        lemma_u32_at_window(bytes, at, 24, 16);
        lemma_u32_at_window(bytes, at, 24, 20);
    }

    /// Decoding the bytes of a message gives the message back, every field
    /// as it was, whatever follows the bytes.
    pub proof fn lemma_round_trip(self)
        ensures
            self.wire().len() == 24,
            Self::parse_at(self.wire(), 0) == Ok::<CtrlHeader, DecodeError>(self),
            Self::parse(self.wire()) == Ok::<CtrlHeader, DecodeError>(self),
            forall|rest: Seq<u8>| #[trigger]
                Self::parse(self.wire() + rest) == Ok::<CtrlHeader, DecodeError>(self),
    {
        let w = self.wire();
        CtrlType::lemma_from_code(self.ctrl_type);
        lemma_u32_round_trip(self.ctrl_type.spec_code());
        lemma_u32_round_trip(self.flags);
        lemma_u64_round_trip(self.fence_id);
        lemma_u32_round_trip(self.ctx_id);
        lemma_u32_round_trip(self.padding);
        assert(w.len() == 24);
        assert(w.subrange(0, 4) =~= u32_bytes(self.ctrl_type.spec_code()));
        lemma_u32_at_window(w, 0, 4, 0);
        assert(w.subrange(4, 8) =~= u32_bytes(self.flags));
        lemma_u32_at_window(w, 4, 4, 0);
        assert(w.subrange(8, 16) =~= u64_bytes(self.fence_id));
        lemma_u64_at_window(w, 8, 8, 0);
        assert(w.subrange(16, 20) =~= u32_bytes(self.ctx_id));
        lemma_u32_at_window(w, 16, 4, 0);
        assert(w.subrange(20, 24) =~= u32_bytes(self.padding));
        lemma_u32_at_window(w, 20, 4, 0);
        assert(Self::parse_at(w, 0) == Ok::<CtrlHeader, DecodeError>(self));
        assert forall|rest: Seq<u8>| #[trigger]
            Self::parse(w + rest) == Ok::<CtrlHeader, DecodeError>(self) by {
            Self::lemma_window(w + rest, 0);
            Self::lemma_window(w, 0);
            assert((w + rest).subrange(0, 24) =~= w.subrange(0, 24));
        }
    }
}
impl CtrlHeader {
    /// The header asks for a fence, or carries one back.
    pub open spec fn spec_fenced(&self) -> bool {
        self.flags & FLAG_FENCE != 0
    }

    /// The header asks for a fence, or carries one back.
    #[verifier::when_used_as_spec(spec_fenced)]
    pub fn fenced(&self) -> (fenced: bool)
        ensures
            fenced == self.spec_fenced(),
    {
        self.flags & FLAG_FENCE != 0
    }

    /// A request of the given kind with no flags set, fence id and context
    /// zero.
    pub fn request(ctrl_type: CtrlType) -> (header: CtrlHeader)
        ensures
            header == (CtrlHeader { ctrl_type, flags: 0, fence_id: 0, ctx_id: 0, padding: 0 }),
    {
        CtrlHeader { ctrl_type, flags: 0, fence_id: 0, ctx_id: 0, padding: 0 }
    }

    /// A request of the given kind that asks the device to echo `fence_id`.
    pub fn fenced_request(ctrl_type: CtrlType, fence_id: u64) -> (header: CtrlHeader)
        ensures
            header == (CtrlHeader {
                ctrl_type,
                flags: FLAG_FENCE,
                fence_id,
                ctx_id: 0,
                padding: 0,
            }),
            header.spec_fenced(),
    {
        assert(FLAG_FENCE & FLAG_FENCE != 0) by (bit_vector);
        CtrlHeader { ctrl_type, flags: FLAG_FENCE, fence_id, ctx_id: 0, padding: 0 }
    }

    /// Whether this response is tied to `request` by its fence: the request
    /// asked for a fence, and the response carries the fence flag and the
    /// request's fence id. A request without the fence flag is tied to no
    /// response in this way.
    pub fn answers(&self, request: &CtrlHeader) -> (tied: bool)
        ensures
            tied == (request.spec_fenced() && self.spec_fenced() && self.fence_id
                == request.fence_id),
    {
        request.fenced() && self.fenced() && self.fence_id == request.fence_id
    }

    /// Reads the header as a response: the failure it reports when its tag
    /// lies in the error range, and its tag otherwise.
    pub fn outcome(&self) -> (outcome: Result<CtrlType, ResponseError>)
        ensures
            outcome == match self.ctrl_type.spec_error() {
                Some(kind) => Err::<CtrlType, ResponseError>(kind),
                None => Ok(self.ctrl_type),
            },
            outcome is Err <==> 0x1200 <= self.ctrl_type.spec_code() <= 0x1205,
    {
        match self.ctrl_type.error() {
            Some(kind) => Err(kind),
            None => Ok(self.ctrl_type),
        }
    }
}

} // verus!
