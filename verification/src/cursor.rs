//! The cursor commands.

use crate::header::{CtrlHeader, DecodeError};
use crate::wire::{get_u32, lemma_u32_at_window, lemma_u32_round_trip, put_u32, u32_at, u32_bytes};
use vstd::prelude::*;

verus! {

/// Where the cursor is.
#[derive(Clone, Copy, Debug, PartialEq, Eq)]
pub struct CursorPos {
    /// The scanout that the cursor is on.
    pub scanout_id: u32,
    /// Horizontal position.
    pub x: u32,
    /// Vertical position.
    pub y: u32,
    /// Reserved; zero in every message that this layer builds.
    pub padding: u32,
}

impl CursorPos {
    /// Number of bytes that the message takes on the wire.
    pub const SIZE: usize = 16;

    /// The bytes of the message: its fields in order, with nothing between them.
    pub open spec fn wire(self) -> Seq<u8> {
        u32_bytes(self.scanout_id)
            + u32_bytes(self.x)
            + u32_bytes(self.y)
            + u32_bytes(self.padding)
    }

    /// Every padding field of the message is zero.
    pub open spec fn zero_padded(self) -> bool {
        self.padding == 0
    }

    /// The message whose fields stand in `bytes` from offset `at` on.
    pub open spec fn parse_at(bytes: Seq<u8>, at: int) -> CursorPos {
        CursorPos {
            scanout_id: u32_at(bytes, at),
            x: u32_at(bytes, at + 4),
            y: u32_at(bytes, at + 8),
            padding: u32_at(bytes, at + 12),
        }
    }

    /// What decoding `bytes` gives: the message at their start, or the
    /// reason why there is none.
    pub open spec fn parse(bytes: Seq<u8>) -> Result<CursorPos, DecodeError> {
        if bytes.len() < 16 {
            Err(DecodeError::Truncated)
        } else {
            Ok(Self::parse_at(bytes, 0))
        }
    }

    /// A message with the given fields and zeroed padding.
    pub fn new(scanout_id: u32, x: u32, y: u32) -> (message: CursorPos)
        ensures
            message == (CursorPos { scanout_id, x, y, padding: 0 }),
    {
        CursorPos { scanout_id, x, y, padding: 0 }
    }

    /// Appends the bytes of the message to `out`.
    pub fn encode_into(&self, out: &mut Vec<u8>)
        ensures
            final(out)@ == old(out)@ + self.wire(),
    {
        put_u32(out, self.scanout_id);
        put_u32(out, self.x);
        put_u32(out, self.y);
        put_u32(out, self.padding);
        assert(out@ =~= old(out)@ + self.wire());
    }

    /// The bytes of the message.
    pub fn encode(&self) -> (bytes: Vec<u8>)
        ensures
            bytes@ == self.wire(),
            bytes@.len() == 16,
    {
        let mut bytes: Vec<u8> = Vec::new();
        self.encode_into(&mut bytes);
        proof {
            self.lemma_round_trip();
        }
        assert(bytes@ =~= self.wire());
        bytes
    }

    /// Reads the message that stands in `bytes` from offset `at` on.
    pub fn decode_at(bytes: &[u8], at: usize) -> (message: CursorPos)
        requires
            at + 16 <= bytes.len(),
        ensures
            message == Self::parse_at(bytes@, at as int),
    {
        let scanout_id: u32 = get_u32(bytes, at);
        let x: u32 = get_u32(bytes, at + 4);
        let y: u32 = get_u32(bytes, at + 8);
        let padding: u32 = get_u32(bytes, at + 12);
        CursorPos { scanout_id, x, y, padding }
    }

    /// Reads the message at the start of `bytes`. Fails with `Truncated`
    /// exactly when fewer than 16 bytes are given; bytes after the message
    /// are not looked at.
    pub fn decode(bytes: &[u8]) -> (message: Result<CursorPos, DecodeError>)
        ensures
            message == Self::parse(bytes@),
    {
        if bytes.len() < 16 {
            return Err(DecodeError::Truncated);
        }
        Ok(Self::decode_at(bytes, 0))
    }

    /// Reading at an offset looks at the 16 bytes from that offset on and at
    /// no others.
    pub proof fn lemma_window(bytes: Seq<u8>, at: int)
        requires
            0 <= at,
            at + 16 <= bytes.len(),
        ensures
            Self::parse_at(bytes, at) == Self::parse_at(bytes.subrange(at, at + 16), 0),
    {
        lemma_u32_at_window(bytes, at, 16, 0);
        lemma_u32_at_window(bytes, at, 16, 4);
        lemma_u32_at_window(bytes, at, 16, 8);
        lemma_u32_at_window(bytes, at, 16, 12);
    }

    /// Decoding the bytes of a message gives the message back, every field
    /// as it was, whatever follows the bytes.
    pub proof fn lemma_round_trip(self)
        ensures
            self.wire().len() == 16,
            Self::parse_at(self.wire(), 0) == self,
            Self::parse(self.wire()) == Ok::<CursorPos, DecodeError>(self),
            forall|rest: Seq<u8>| #[trigger]
                Self::parse(self.wire() + rest) == Ok::<CursorPos, DecodeError>(self),
    {
        let w = self.wire();
        lemma_u32_round_trip(self.scanout_id);
        lemma_u32_round_trip(self.x);
        lemma_u32_round_trip(self.y);
        lemma_u32_round_trip(self.padding);
        assert(w.len() == 16);
        assert(w.subrange(0, 4) =~= u32_bytes(self.scanout_id));
        lemma_u32_at_window(w, 0, 4, 0);
        assert(w.subrange(4, 8) =~= u32_bytes(self.x));
        lemma_u32_at_window(w, 4, 4, 0);
        assert(w.subrange(8, 12) =~= u32_bytes(self.y));
        lemma_u32_at_window(w, 8, 4, 0);
        assert(w.subrange(12, 16) =~= u32_bytes(self.padding));
        lemma_u32_at_window(w, 12, 4, 0);
        assert(Self::parse_at(w, 0) == self);
        assert forall|rest: Seq<u8>| #[trigger]
            Self::parse(w + rest) == Ok::<CursorPos, DecodeError>(self) by {
            Self::lemma_window(w + rest, 0);
            Self::lemma_window(w, 0);
            assert((w + rest).subrange(0, 16) =~= w.subrange(0, 16));
        }
    }
}

/// Moves the cursor or gives it a new image.
#[derive(Clone, Copy, Debug, PartialEq, Eq)]
pub struct UpdateCursor {
    /// The header that opens the message.
    pub hdr: CtrlHeader,
    /// Where the cursor goes.
    pub pos: CursorPos,
    /// The resource that holds the cursor image.
    pub resource_id: u32,
    /// Horizontal offset of the hot spot within the image.
    pub hot_x: u32,
    /// Vertical offset of the hot spot within the image.
    pub hot_y: u32,
    /// Reserved; zero in every message that this layer builds.
    pub padding: u32,
}

impl UpdateCursor {
    /// Number of bytes that the message takes on the wire.
    pub const SIZE: usize = 56;

    /// The bytes of the message: its fields in order, with nothing between them.
    pub open spec fn wire(self) -> Seq<u8> {
        self.hdr.wire()
            + self.pos.wire()
            + u32_bytes(self.resource_id)
            + u32_bytes(self.hot_x)
            + u32_bytes(self.hot_y)
            + u32_bytes(self.padding)
    }

    /// Every padding field of the message is zero.
    pub open spec fn zero_padded(self) -> bool {
        &&& self.hdr.zero_padded()
        &&& self.pos.zero_padded()
        &&& self.padding == 0
    }

    /// The message whose fields stand in `bytes` from offset `at` on.
    pub open spec fn parse_at(bytes: Seq<u8>, at: int) -> Result<UpdateCursor, DecodeError> {
        match CtrlHeader::parse_at(bytes, at) {
            Err(e) => Err(e),
            Ok(hdr) => {
                Ok(UpdateCursor {
                    hdr,
                    pos: CursorPos::parse_at(bytes, at + 24),
                    resource_id: u32_at(bytes, at + 40),
                    hot_x: u32_at(bytes, at + 44),
                    hot_y: u32_at(bytes, at + 48),
                    padding: u32_at(bytes, at + 52),
                })
            },
        }
    }

    /// What decoding `bytes` gives: the message at their start, or the
    /// reason why there is none.
    pub open spec fn parse(bytes: Seq<u8>) -> Result<UpdateCursor, DecodeError> {
        if bytes.len() < 56 {
            Err(DecodeError::Truncated)
        } else {
            Self::parse_at(bytes, 0)
        }
    }

    /// A message with the given fields and zeroed padding.
    pub fn new(
        hdr: CtrlHeader,
        pos: CursorPos,
        resource_id: u32,
        hot_x: u32,
        hot_y: u32,
    ) -> (message: UpdateCursor)
        ensures
            message == (UpdateCursor { hdr, pos, resource_id, hot_x, hot_y, padding: 0 }),
    {
        UpdateCursor { hdr, pos, resource_id, hot_x, hot_y, padding: 0 }
    }

    /// Appends the bytes of the message to `out`.
    pub fn encode_into(&self, out: &mut Vec<u8>)
        ensures
            final(out)@ == old(out)@ + self.wire(),
    {
        self.hdr.encode_into(out);
        self.pos.encode_into(out);
        put_u32(out, self.resource_id);
        put_u32(out, self.hot_x);
        put_u32(out, self.hot_y);
        put_u32(out, self.padding);
        assert(out@ =~= old(out)@ + self.wire());
    }

    /// The bytes of the message.
    pub fn encode(&self) -> (bytes: Vec<u8>)
        ensures
            bytes@ == self.wire(),
            bytes@.len() == 56,
    {
        let mut bytes: Vec<u8> = Vec::new();
        self.encode_into(&mut bytes);
        proof {
            self.lemma_round_trip();
        }
        assert(bytes@ =~= self.wire());
        bytes
    }

    /// Reads the message that stands in `bytes` from offset `at` on.
    pub fn decode_at(bytes: &[u8], at: usize) -> (message: Result<UpdateCursor, DecodeError>)
        requires
            at + 56 <= bytes.len(),
        ensures
            message == Self::parse_at(bytes@, at as int),
    {
        let hdr = match CtrlHeader::decode_at(bytes, at) {
            Ok(hdr) => hdr,
            Err(e) => return Err(e),
        };
        let pos = CursorPos::decode_at(bytes, at + 24);
        let resource_id: u32 = get_u32(bytes, at + 40);
        let hot_x: u32 = get_u32(bytes, at + 44);
        let hot_y: u32 = get_u32(bytes, at + 48);
        let padding: u32 = get_u32(bytes, at + 52);
        Ok(UpdateCursor { hdr, pos, resource_id, hot_x, hot_y, padding })
    }

    /// Reads the message at the start of `bytes`. Fails with `Truncated`
    /// exactly when fewer than 56 bytes are given; bytes after the message
    /// are not looked at.
    pub fn decode(bytes: &[u8]) -> (message: Result<UpdateCursor, DecodeError>)
        ensures
            message == Self::parse(bytes@),
    {
        if bytes.len() < 56 {
            return Err(DecodeError::Truncated);
        }
        Self::decode_at(bytes, 0)
    }

    /// Reading at an offset looks at the 56 bytes from that offset on and at
    /// no others.
    pub proof fn lemma_window(bytes: Seq<u8>, at: int)
        requires
            0 <= at,
            at + 56 <= bytes.len(),
        ensures
            Self::parse_at(bytes, at) == Self::parse_at(bytes.subrange(at, at + 56), 0),
    {
        let part = bytes.subrange(at, at + 56);
        CtrlHeader::lemma_window(bytes, at);
        CtrlHeader::lemma_window(part, 0);
        assert(part.subrange(0, 24) =~= bytes.subrange(at, at + 24));
        CursorPos::lemma_window(bytes, at + 24);
        CursorPos::lemma_window(part, 24);
        assert(part.subrange(24, 40) =~= bytes.subrange(at + 24, at + 40));
        lemma_u32_at_window(bytes, at, 56, 40);
        lemma_u32_at_window(bytes, at, 56, 44);
        lemma_u32_at_window(bytes, at, 56, 48);
        lemma_u32_at_window(bytes, at, 56, 52);
    }

    /// Decoding the bytes of a message gives the message back, every field
    /// as it was, whatever follows the bytes.
    pub proof fn lemma_round_trip(self)
        ensures
            self.wire().len() == 56,
            Self::parse_at(self.wire(), 0) == Ok::<UpdateCursor, DecodeError>(self),
            Self::parse(self.wire()) == Ok::<UpdateCursor, DecodeError>(self),
            forall|rest: Seq<u8>| #[trigger]
                Self::parse(self.wire() + rest) == Ok::<UpdateCursor, DecodeError>(self),
    {
        let w = self.wire();
        self.hdr.lemma_round_trip();
        self.pos.lemma_round_trip();
        lemma_u32_round_trip(self.resource_id);
        lemma_u32_round_trip(self.hot_x);
        lemma_u32_round_trip(self.hot_y);
        lemma_u32_round_trip(self.padding);
        assert(w.len() == 56);
        assert(w.subrange(0, 24) =~= self.hdr.wire());
        CtrlHeader::lemma_window(w, 0);
        assert(w.subrange(24, 40) =~= self.pos.wire());
        CursorPos::lemma_window(w, 24);
        assert(w.subrange(40, 44) =~= u32_bytes(self.resource_id));
        lemma_u32_at_window(w, 40, 4, 0);
        assert(w.subrange(44, 48) =~= u32_bytes(self.hot_x));
        lemma_u32_at_window(w, 44, 4, 0);
        assert(w.subrange(48, 52) =~= u32_bytes(self.hot_y));
        lemma_u32_at_window(w, 48, 4, 0);
        assert(w.subrange(52, 56) =~= u32_bytes(self.padding));
        lemma_u32_at_window(w, 52, 4, 0);
        assert(Self::parse_at(w, 0) == Ok::<UpdateCursor, DecodeError>(self));
        assert forall|rest: Seq<u8>| #[trigger]
            Self::parse(w + rest) == Ok::<UpdateCursor, DecodeError>(self) by {
            Self::lemma_window(w + rest, 0);
            Self::lemma_window(w, 0);
            assert((w + rest).subrange(0, 56) =~= w.subrange(0, 56));
        }
    }
}
} // verus!
