//! The commands that create, back, fill, show and destroy 2D resources.

use crate::ctrl_type::Formats;
use crate::display::Rect;
use crate::header::{CtrlHeader, DecodeError};
use crate::wire::{
    get_u32, get_u64, lemma_u32_at_window, lemma_u32_round_trip, lemma_u64_at_window,
    lemma_u64_round_trip, put_u32, put_u64, u32_at, u32_bytes, u64_at, u64_bytes,
};
use vstd::prelude::*;

verus! {

/// Creates a 2D resource under an id that the driver chooses.
#[derive(Clone, Copy, Debug, PartialEq, Eq)]
pub struct ResourceCreate2d {
    /// The header that opens the message.
    pub hdr: CtrlHeader,
    /// The id of the new resource.
    pub resource_id: u32,
    /// Pixel layout of the resource.
    pub format: Formats,
    /// Width in pixels.
    pub width: u32,
    /// Height in pixels.
    pub height: u32,
}

impl ResourceCreate2d {
    /// Number of bytes that the message takes on the wire.
    pub const SIZE: usize = 40;

    /// The bytes of the message: its fields in order, with nothing between them.
    pub open spec fn wire(self) -> Seq<u8> {
        self.hdr.wire()
            + u32_bytes(self.resource_id)
            + u32_bytes(self.format.spec_code())
            + u32_bytes(self.width)
            + u32_bytes(self.height)
    }

    /// Every padding field of the message is zero.
    pub open spec fn zero_padded(self) -> bool {
        self.hdr.zero_padded()
    }

    /// The message whose fields stand in `bytes` from offset `at` on.
    pub open spec fn parse_at(bytes: Seq<u8>, at: int) -> Result<ResourceCreate2d, DecodeError> {
        match CtrlHeader::parse_at(bytes, at) {
            Err(e) => Err(e),
            Ok(hdr) => {
                match Formats::spec_from_code(u32_at(bytes, at + 28)) {
                    None => Err(DecodeError::UnknownFormat(u32_at(bytes, at + 28))),
                    Some(format) => {
                        Ok(ResourceCreate2d {
                            hdr,
                            resource_id: u32_at(bytes, at + 24),
                            format,
                            width: u32_at(bytes, at + 32),
                            height: u32_at(bytes, at + 36),
                        })
                    },
                }
            },
        }
    }

    /// What decoding `bytes` gives: the message at their start, or the
    /// reason why there is none.
    pub open spec fn parse(bytes: Seq<u8>) -> Result<ResourceCreate2d, DecodeError> {
        if bytes.len() < 40 {
            Err(DecodeError::Truncated)
        } else {
            Self::parse_at(bytes, 0)
        }
    }

    /// A message with the given fields.
    pub fn new(
        hdr: CtrlHeader,
        resource_id: u32,
        format: Formats,
        width: u32,
        height: u32,
    ) -> (message: ResourceCreate2d)
        ensures
            message == (ResourceCreate2d { hdr, resource_id, format, width, height }),
    {
        ResourceCreate2d { hdr, resource_id, format, width, height }
    }

    /// Appends the bytes of the message to `out`.
    pub fn encode_into(&self, out: &mut Vec<u8>)
        ensures
            final(out)@ == old(out)@ + self.wire(),
    {
        self.hdr.encode_into(out);
        put_u32(out, self.resource_id);
        put_u32(out, self.format.code());
        put_u32(out, self.width);
        put_u32(out, self.height);
        assert(out@ =~= old(out)@ + self.wire());
    }

    /// The bytes of the message.
    pub fn encode(&self) -> (bytes: Vec<u8>)
        ensures
            bytes@ == self.wire(),
            bytes@.len() == 40,
    {
        let mut bytes: Vec<u8> = Vec::new();
        self.encode_into(&mut bytes);
        proof {
            self.lemma_round_trip();
        }
        assert(bytes@ =~= self.wire());
        bytes
    }

    /// Reads the message that stands in `bytes` from offset `at` on.
    pub fn decode_at(bytes: &[u8], at: usize) -> (message: Result<ResourceCreate2d, DecodeError>)
        requires
            at + 40 <= bytes.len(),
        ensures
            message == Self::parse_at(bytes@, at as int),
    {
        let hdr = match CtrlHeader::decode_at(bytes, at) {
            Ok(hdr) => hdr,
            Err(e) => return Err(e),
        };
        let resource_id: u32 = get_u32(bytes, at + 24);
        let format_code: u32 = get_u32(bytes, at + 28);
        let format = match Formats::from_code(format_code) {
            Some(format) => format,
            None => return Err(DecodeError::UnknownFormat(format_code)),
        };
        let width: u32 = get_u32(bytes, at + 32);
        let height: u32 = get_u32(bytes, at + 36);
        Ok(ResourceCreate2d { hdr, resource_id, format, width, height })
    }

    /// Reads the message at the start of `bytes`. Fails with `Truncated`
    /// exactly when fewer than 40 bytes are given; bytes after the message
    /// are not looked at.
    pub fn decode(bytes: &[u8]) -> (message: Result<ResourceCreate2d, DecodeError>)
        ensures
            message == Self::parse(bytes@),
    {
        if bytes.len() < 40 {
            return Err(DecodeError::Truncated);
        }
        Self::decode_at(bytes, 0)
    }

    /// Reading at an offset looks at the 40 bytes from that offset on and at
    /// no others.
    pub proof fn lemma_window(bytes: Seq<u8>, at: int)
        requires
            0 <= at,
            at + 40 <= bytes.len(),
        ensures
            Self::parse_at(bytes, at) == Self::parse_at(bytes.subrange(at, at + 40), 0),
    {
        let part = bytes.subrange(at, at + 40);
        CtrlHeader::lemma_window(bytes, at);
        CtrlHeader::lemma_window(part, 0);
        assert(part.subrange(0, 24) =~= bytes.subrange(at, at + 24));
        lemma_u32_at_window(bytes, at, 40, 24);
        lemma_u32_at_window(bytes, at, 40, 28);
        lemma_u32_at_window(bytes, at, 40, 32);
        lemma_u32_at_window(bytes, at, 40, 36);
    }

    /// Decoding the bytes of a message gives the message back, every field
    /// as it was, whatever follows the bytes.
    pub proof fn lemma_round_trip(self)
        ensures
            self.wire().len() == 40,
            Self::parse_at(self.wire(), 0) == Ok::<ResourceCreate2d, DecodeError>(self),
            Self::parse(self.wire()) == Ok::<ResourceCreate2d, DecodeError>(self),
            forall|rest: Seq<u8>| #[trigger]
                Self::parse(self.wire() + rest) == Ok::<ResourceCreate2d, DecodeError>(self),
    {
        let w = self.wire();
        self.hdr.lemma_round_trip();
        lemma_u32_round_trip(self.resource_id);
        Formats::lemma_from_code(self.format);
        lemma_u32_round_trip(self.format.spec_code());
        lemma_u32_round_trip(self.width);
        lemma_u32_round_trip(self.height);
        assert(w.len() == 40);
        assert(w.subrange(0, 24) =~= self.hdr.wire());
        CtrlHeader::lemma_window(w, 0);
        assert(w.subrange(24, 28) =~= u32_bytes(self.resource_id));
        lemma_u32_at_window(w, 24, 4, 0);
        assert(w.subrange(28, 32) =~= u32_bytes(self.format.spec_code()));
        lemma_u32_at_window(w, 28, 4, 0);
        assert(w.subrange(32, 36) =~= u32_bytes(self.width));
        lemma_u32_at_window(w, 32, 4, 0);
        assert(w.subrange(36, 40) =~= u32_bytes(self.height));
        lemma_u32_at_window(w, 36, 4, 0);
        assert(Self::parse_at(w, 0) == Ok::<ResourceCreate2d, DecodeError>(self));
        assert forall|rest: Seq<u8>| #[trigger]
            Self::parse(w + rest) == Ok::<ResourceCreate2d, DecodeError>(self) by {
            Self::lemma_window(w + rest, 0);
            Self::lemma_window(w, 0);
            assert((w + rest).subrange(0, 40) =~= w.subrange(0, 40));
        }
    }
}

/// Destroys a resource.
#[derive(Clone, Copy, Debug, PartialEq, Eq)]
pub struct ResourceUnref {
    /// The header that opens the message.
    pub hdr: CtrlHeader,
    /// The resource to destroy.
    pub resource_id: u32,
    /// Reserved; zero in every message that this layer builds.
    pub padding: u32,
}

impl ResourceUnref {
    /// Number of bytes that the message takes on the wire.
    pub const SIZE: usize = 32;

    /// The bytes of the message: its fields in order, with nothing between them.
    pub open spec fn wire(self) -> Seq<u8> {
        self.hdr.wire()
            + u32_bytes(self.resource_id)
            + u32_bytes(self.padding)
    }

    /// Every padding field of the message is zero.
    pub open spec fn zero_padded(self) -> bool {
        &&& self.hdr.zero_padded()
        &&& self.padding == 0
    }

    /// The message whose fields stand in `bytes` from offset `at` on.
    pub open spec fn parse_at(bytes: Seq<u8>, at: int) -> Result<ResourceUnref, DecodeError> {
        match CtrlHeader::parse_at(bytes, at) {
            Err(e) => Err(e),
            Ok(hdr) => {
                Ok(ResourceUnref {
                    hdr,
                    resource_id: u32_at(bytes, at + 24),
                    padding: u32_at(bytes, at + 28),
                })
            },
        }
    }

    /// What decoding `bytes` gives: the message at their start, or the
    /// reason why there is none.
    pub open spec fn parse(bytes: Seq<u8>) -> Result<ResourceUnref, DecodeError> {
        if bytes.len() < 32 {
            Err(DecodeError::Truncated)
        } else {
            Self::parse_at(bytes, 0)
        }
    }

    /// A message with the given fields and zeroed padding.
    pub fn new(hdr: CtrlHeader, resource_id: u32) -> (message: ResourceUnref)
        ensures
            message == (ResourceUnref { hdr, resource_id, padding: 0 }),
    {
        ResourceUnref { hdr, resource_id, padding: 0 }
    }

    /// Appends the bytes of the message to `out`.
    pub fn encode_into(&self, out: &mut Vec<u8>)
        ensures
            final(out)@ == old(out)@ + self.wire(),
    {
        self.hdr.encode_into(out);
        put_u32(out, self.resource_id);
        put_u32(out, self.padding);
        assert(out@ =~= old(out)@ + self.wire());
    }

    /// The bytes of the message.
    pub fn encode(&self) -> (bytes: Vec<u8>)
        ensures
            bytes@ == self.wire(),
            bytes@.len() == 32,
    {
        let mut bytes: Vec<u8> = Vec::new();
        self.encode_into(&mut bytes);
        proof {
            self.lemma_round_trip();
        }
        assert(bytes@ =~= self.wire());
        bytes
    }

    /// Reads the message that stands in `bytes` from offset `at` on.
    pub fn decode_at(bytes: &[u8], at: usize) -> (message: Result<ResourceUnref, DecodeError>)
        requires
            at + 32 <= bytes.len(),
        ensures
            message == Self::parse_at(bytes@, at as int),
    {
        let hdr = match CtrlHeader::decode_at(bytes, at) {
            Ok(hdr) => hdr,
            Err(e) => return Err(e),
        };
        let resource_id: u32 = get_u32(bytes, at + 24);
        let padding: u32 = get_u32(bytes, at + 28);
        Ok(ResourceUnref { hdr, resource_id, padding })
    }

    /// Reads the message at the start of `bytes`. Fails with `Truncated`
    /// exactly when fewer than 32 bytes are given; bytes after the message
    /// are not looked at.
    pub fn decode(bytes: &[u8]) -> (message: Result<ResourceUnref, DecodeError>)
        ensures
            message == Self::parse(bytes@),
    {
        if bytes.len() < 32 {
            return Err(DecodeError::Truncated);
        }
        Self::decode_at(bytes, 0)
    }

    /// Reading at an offset looks at the 32 bytes from that offset on and at
    /// no others.
    pub proof fn lemma_window(bytes: Seq<u8>, at: int)
        requires
            0 <= at,
            at + 32 <= bytes.len(),
        ensures
            Self::parse_at(bytes, at) == Self::parse_at(bytes.subrange(at, at + 32), 0),
    {
        let part = bytes.subrange(at, at + 32);
        CtrlHeader::lemma_window(bytes, at);
        CtrlHeader::lemma_window(part, 0);
        assert(part.subrange(0, 24) =~= bytes.subrange(at, at + 24));
        lemma_u32_at_window(bytes, at, 32, 24);
        lemma_u32_at_window(bytes, at, 32, 28);
    }

    /// Decoding the bytes of a message gives the message back, every field
    /// as it was, whatever follows the bytes.
    pub proof fn lemma_round_trip(self)
        ensures
            self.wire().len() == 32,
            Self::parse_at(self.wire(), 0) == Ok::<ResourceUnref, DecodeError>(self),
            Self::parse(self.wire()) == Ok::<ResourceUnref, DecodeError>(self),
            forall|rest: Seq<u8>| #[trigger]
                Self::parse(self.wire() + rest) == Ok::<ResourceUnref, DecodeError>(self),
    {
        let w = self.wire();
        self.hdr.lemma_round_trip();
        lemma_u32_round_trip(self.resource_id);
        lemma_u32_round_trip(self.padding);
        assert(w.len() == 32);
        assert(w.subrange(0, 24) =~= self.hdr.wire());
        CtrlHeader::lemma_window(w, 0);
        assert(w.subrange(24, 28) =~= u32_bytes(self.resource_id));
        lemma_u32_at_window(w, 24, 4, 0);
        assert(w.subrange(28, 32) =~= u32_bytes(self.padding));
        lemma_u32_at_window(w, 28, 4, 0);
        assert(Self::parse_at(w, 0) == Ok::<ResourceUnref, DecodeError>(self));
        assert forall|rest: Seq<u8>| #[trigger]
            Self::parse(w + rest) == Ok::<ResourceUnref, DecodeError>(self) by {
            Self::lemma_window(w + rest, 0);
            Self::lemma_window(w, 0);
            assert((w + rest).subrange(0, 32) =~= w.subrange(0, 32));
        }
    }
}

/// Shows a region of a resource on a scanout.
#[derive(Clone, Copy, Debug, PartialEq, Eq)]
pub struct SetScanout {
    /// The header that opens the message.
    pub hdr: CtrlHeader,
    /// The region of the resource to show.
    pub r: Rect,
    /// The scanout to configure, from 0 to 15.
    pub scanout_id: u32,
    /// The resource to show.
    pub resource_id: u32,
}

impl SetScanout {
    /// Number of bytes that the message takes on the wire.
    pub const SIZE: usize = 48;

    /// The bytes of the message: its fields in order, with nothing between them.
    pub open spec fn wire(self) -> Seq<u8> {
        self.hdr.wire()
            + self.r.wire()
            + u32_bytes(self.scanout_id)
            + u32_bytes(self.resource_id)
    }

    /// Every padding field of the message is zero.
    pub open spec fn zero_padded(self) -> bool {
        self.hdr.zero_padded()
    }

    /// The message whose fields stand in `bytes` from offset `at` on.
    pub open spec fn parse_at(bytes: Seq<u8>, at: int) -> Result<SetScanout, DecodeError> {
        match CtrlHeader::parse_at(bytes, at) {
            Err(e) => Err(e),
            Ok(hdr) => {
                Ok(SetScanout {
                    hdr,
                    r: Rect::parse_at(bytes, at + 24),
                    scanout_id: u32_at(bytes, at + 40),
                    resource_id: u32_at(bytes, at + 44),
                })
            },
        }
    }

    /// What decoding `bytes` gives: the message at their start, or the
    /// reason why there is none.
    pub open spec fn parse(bytes: Seq<u8>) -> Result<SetScanout, DecodeError> {
        if bytes.len() < 48 {
            Err(DecodeError::Truncated)
        } else {
            Self::parse_at(bytes, 0)
        }
    }

    /// A message with the given fields.
    pub fn new(hdr: CtrlHeader, r: Rect, scanout_id: u32, resource_id: u32) -> (message: SetScanout)
        ensures
            message == (SetScanout { hdr, r, scanout_id, resource_id }),
    {
        SetScanout { hdr, r, scanout_id, resource_id }
    }

    /// Appends the bytes of the message to `out`.
    pub fn encode_into(&self, out: &mut Vec<u8>)
        ensures
            final(out)@ == old(out)@ + self.wire(),
    {
        self.hdr.encode_into(out);
        self.r.encode_into(out);
        put_u32(out, self.scanout_id);
        put_u32(out, self.resource_id);
        assert(out@ =~= old(out)@ + self.wire());
    }

    /// The bytes of the message.
    pub fn encode(&self) -> (bytes: Vec<u8>)
        ensures
            bytes@ == self.wire(),
            bytes@.len() == 48,
    {
        let mut bytes: Vec<u8> = Vec::new();
        self.encode_into(&mut bytes);
        proof {
            self.lemma_round_trip();
        }
        assert(bytes@ =~= self.wire());
        bytes
    }

    /// Reads the message that stands in `bytes` from offset `at` on.
    pub fn decode_at(bytes: &[u8], at: usize) -> (message: Result<SetScanout, DecodeError>)
        requires
            at + 48 <= bytes.len(),
        ensures
            message == Self::parse_at(bytes@, at as int),
    {
        let hdr = match CtrlHeader::decode_at(bytes, at) {
            Ok(hdr) => hdr,
            Err(e) => return Err(e),
        };
        let r = Rect::decode_at(bytes, at + 24);
        let scanout_id: u32 = get_u32(bytes, at + 40);
        let resource_id: u32 = get_u32(bytes, at + 44);
        Ok(SetScanout { hdr, r, scanout_id, resource_id })
    }

    /// Reads the message at the start of `bytes`. Fails with `Truncated`
    /// exactly when fewer than 48 bytes are given; bytes after the message
    /// are not looked at.
    pub fn decode(bytes: &[u8]) -> (message: Result<SetScanout, DecodeError>)
        ensures
            message == Self::parse(bytes@),
    {
        if bytes.len() < 48 {
            return Err(DecodeError::Truncated);
        }
        Self::decode_at(bytes, 0)
    }

    /// Reading at an offset looks at the 48 bytes from that offset on and at
    /// no others.
    pub proof fn lemma_window(bytes: Seq<u8>, at: int)
        requires
            0 <= at,
            at + 48 <= bytes.len(),
        ensures
            Self::parse_at(bytes, at) == Self::parse_at(bytes.subrange(at, at + 48), 0),
    {
        let part = bytes.subrange(at, at + 48);
        CtrlHeader::lemma_window(bytes, at);
        CtrlHeader::lemma_window(part, 0);
        assert(part.subrange(0, 24) =~= bytes.subrange(at, at + 24));
        Rect::lemma_window(bytes, at + 24);
        Rect::lemma_window(part, 24);
        assert(part.subrange(24, 40) =~= bytes.subrange(at + 24, at + 40));
        lemma_u32_at_window(bytes, at, 48, 40);
        lemma_u32_at_window(bytes, at, 48, 44);
    }

    /// Decoding the bytes of a message gives the message back, every field
    /// as it was, whatever follows the bytes.
    pub proof fn lemma_round_trip(self)
        ensures
            self.wire().len() == 48,
            Self::parse_at(self.wire(), 0) == Ok::<SetScanout, DecodeError>(self),
            Self::parse(self.wire()) == Ok::<SetScanout, DecodeError>(self),
            forall|rest: Seq<u8>| #[trigger]
                Self::parse(self.wire() + rest) == Ok::<SetScanout, DecodeError>(self),
    {
        let w = self.wire();
        self.hdr.lemma_round_trip();
        self.r.lemma_round_trip();
        lemma_u32_round_trip(self.scanout_id);
        lemma_u32_round_trip(self.resource_id);
        assert(w.len() == 48);
        assert(w.subrange(0, 24) =~= self.hdr.wire());
        CtrlHeader::lemma_window(w, 0);
        assert(w.subrange(24, 40) =~= self.r.wire());
        Rect::lemma_window(w, 24);
        assert(w.subrange(40, 44) =~= u32_bytes(self.scanout_id));
        lemma_u32_at_window(w, 40, 4, 0);
        assert(w.subrange(44, 48) =~= u32_bytes(self.resource_id));
        lemma_u32_at_window(w, 44, 4, 0);
        assert(Self::parse_at(w, 0) == Ok::<SetScanout, DecodeError>(self));
        assert forall|rest: Seq<u8>| #[trigger]
            Self::parse(w + rest) == Ok::<SetScanout, DecodeError>(self) by {
            Self::lemma_window(w + rest, 0);
            Self::lemma_window(w, 0);
            assert((w + rest).subrange(0, 48) =~= w.subrange(0, 48));
        }
    }
}

/// Flushes a region of a resource to the scanouts that show it.
#[derive(Clone, Copy, Debug, PartialEq, Eq)]
pub struct ResourceFlush {
    /// The header that opens the message.
    pub hdr: CtrlHeader,
    /// The region to flush.
    pub r: Rect,
    /// The resource to flush.
    pub resource_id: u32,
    /// Reserved; zero in every message that this layer builds.
    pub padding: u32,
}

impl ResourceFlush {
    /// Number of bytes that the message takes on the wire.
    pub const SIZE: usize = 48;

    /// The bytes of the message: its fields in order, with nothing between them.
    pub open spec fn wire(self) -> Seq<u8> {
        self.hdr.wire()
            + self.r.wire()
            + u32_bytes(self.resource_id)
            + u32_bytes(self.padding)
    }

    /// Every padding field of the message is zero.
    pub open spec fn zero_padded(self) -> bool {
        &&& self.hdr.zero_padded()
        &&& self.padding == 0
    }

    /// The message whose fields stand in `bytes` from offset `at` on.
    pub open spec fn parse_at(bytes: Seq<u8>, at: int) -> Result<ResourceFlush, DecodeError> {
        match CtrlHeader::parse_at(bytes, at) {
            Err(e) => Err(e),
            Ok(hdr) => {
                Ok(ResourceFlush {
                    hdr,
                    r: Rect::parse_at(bytes, at + 24),
                    resource_id: u32_at(bytes, at + 40),
                    padding: u32_at(bytes, at + 44),
                })
            },
        }
    }

    /// What decoding `bytes` gives: the message at their start, or the
    /// reason why there is none.
    pub open spec fn parse(bytes: Seq<u8>) -> Result<ResourceFlush, DecodeError> {
        if bytes.len() < 48 {
            Err(DecodeError::Truncated)
        } else {
            Self::parse_at(bytes, 0)
        }
    }

    /// A message with the given fields and zeroed padding.
    pub fn new(hdr: CtrlHeader, r: Rect, resource_id: u32) -> (message: ResourceFlush)
        ensures
            message == (ResourceFlush { hdr, r, resource_id, padding: 0 }),
    {
        ResourceFlush { hdr, r, resource_id, padding: 0 }
    }

    /// Appends the bytes of the message to `out`.
    pub fn encode_into(&self, out: &mut Vec<u8>)
        ensures
            final(out)@ == old(out)@ + self.wire(),
    {
        self.hdr.encode_into(out);
        self.r.encode_into(out);
        put_u32(out, self.resource_id);
        put_u32(out, self.padding);
        assert(out@ =~= old(out)@ + self.wire());
    }

    /// The bytes of the message.
    pub fn encode(&self) -> (bytes: Vec<u8>)
        ensures
            bytes@ == self.wire(),
            bytes@.len() == 48,
    {
        let mut bytes: Vec<u8> = Vec::new();
        self.encode_into(&mut bytes);
        proof {
            self.lemma_round_trip();
        }
        assert(bytes@ =~= self.wire());
        bytes
    }

    /// Reads the message that stands in `bytes` from offset `at` on.
    pub fn decode_at(bytes: &[u8], at: usize) -> (message: Result<ResourceFlush, DecodeError>)
        requires
            at + 48 <= bytes.len(),
        ensures
            message == Self::parse_at(bytes@, at as int),
    {
        let hdr = match CtrlHeader::decode_at(bytes, at) {
            Ok(hdr) => hdr,
            Err(e) => return Err(e),
        };
        let r = Rect::decode_at(bytes, at + 24);
        let resource_id: u32 = get_u32(bytes, at + 40);
        let padding: u32 = get_u32(bytes, at + 44);
        Ok(ResourceFlush { hdr, r, resource_id, padding })
    }

    /// Reads the message at the start of `bytes`. Fails with `Truncated`
    /// exactly when fewer than 48 bytes are given; bytes after the message
    /// are not looked at.
    pub fn decode(bytes: &[u8]) -> (message: Result<ResourceFlush, DecodeError>)
        ensures
            message == Self::parse(bytes@),
    {
        if bytes.len() < 48 {
            return Err(DecodeError::Truncated);
        }
        Self::decode_at(bytes, 0)
    }

    /// Reading at an offset looks at the 48 bytes from that offset on and at
    /// no others.
    pub proof fn lemma_window(bytes: Seq<u8>, at: int)
        requires
            0 <= at,
            at + 48 <= bytes.len(),
        ensures
            Self::parse_at(bytes, at) == Self::parse_at(bytes.subrange(at, at + 48), 0),
    {
        let part = bytes.subrange(at, at + 48);
        CtrlHeader::lemma_window(bytes, at);
        CtrlHeader::lemma_window(part, 0);
        assert(part.subrange(0, 24) =~= bytes.subrange(at, at + 24));
        Rect::lemma_window(bytes, at + 24);
        Rect::lemma_window(part, 24);
        assert(part.subrange(24, 40) =~= bytes.subrange(at + 24, at + 40));
        lemma_u32_at_window(bytes, at, 48, 40);
        lemma_u32_at_window(bytes, at, 48, 44);
    }

    /// Decoding the bytes of a message gives the message back, every field
    /// as it was, whatever follows the bytes.
    pub proof fn lemma_round_trip(self)
        ensures
            self.wire().len() == 48,
            Self::parse_at(self.wire(), 0) == Ok::<ResourceFlush, DecodeError>(self),
            Self::parse(self.wire()) == Ok::<ResourceFlush, DecodeError>(self),
            forall|rest: Seq<u8>| #[trigger]
                Self::parse(self.wire() + rest) == Ok::<ResourceFlush, DecodeError>(self),
    {
        let w = self.wire();
        self.hdr.lemma_round_trip();
        self.r.lemma_round_trip();
        lemma_u32_round_trip(self.resource_id);
        lemma_u32_round_trip(self.padding);
        assert(w.len() == 48);
        assert(w.subrange(0, 24) =~= self.hdr.wire());
        CtrlHeader::lemma_window(w, 0);
        assert(w.subrange(24, 40) =~= self.r.wire());
        Rect::lemma_window(w, 24);
        assert(w.subrange(40, 44) =~= u32_bytes(self.resource_id));
        lemma_u32_at_window(w, 40, 4, 0);
        assert(w.subrange(44, 48) =~= u32_bytes(self.padding));
        lemma_u32_at_window(w, 44, 4, 0);
        assert(Self::parse_at(w, 0) == Ok::<ResourceFlush, DecodeError>(self));
        assert forall|rest: Seq<u8>| #[trigger]
            Self::parse(w + rest) == Ok::<ResourceFlush, DecodeError>(self) by {
            Self::lemma_window(w + rest, 0);
            Self::lemma_window(w, 0);
            assert((w + rest).subrange(0, 48) =~= w.subrange(0, 48));
        }
    }
}

/// Copies a region from the guest memory that backs a resource to the host.
#[derive(Clone, Copy, Debug, PartialEq, Eq)]
pub struct TransferToHost2d {
    /// The header that opens the message.
    pub hdr: CtrlHeader,
    /// The region to copy.
    pub r: Rect,
    /// Byte offset of the region within the backing memory.
    pub offset: u64,
    /// The resource to update.
    pub resource_id: u32,
    /// Reserved; zero in every message that this layer builds.
    pub padding: u32,
}

impl TransferToHost2d {
    /// Number of bytes that the message takes on the wire.
    pub const SIZE: usize = 56;

    /// The bytes of the message: its fields in order, with nothing between them.
    pub open spec fn wire(self) -> Seq<u8> {
        self.hdr.wire()
            + self.r.wire()
            + u64_bytes(self.offset)
            + u32_bytes(self.resource_id)
            + u32_bytes(self.padding)
    }

    /// Every padding field of the message is zero.
    pub open spec fn zero_padded(self) -> bool {
        &&& self.hdr.zero_padded()
        &&& self.padding == 0
    }

    /// The message whose fields stand in `bytes` from offset `at` on.
    pub open spec fn parse_at(bytes: Seq<u8>, at: int) -> Result<TransferToHost2d, DecodeError> {
        match CtrlHeader::parse_at(bytes, at) {
            Err(e) => Err(e),
            Ok(hdr) => {
                Ok(TransferToHost2d {
                    hdr,
                    r: Rect::parse_at(bytes, at + 24),
                    offset: u64_at(bytes, at + 40),
                    resource_id: u32_at(bytes, at + 48),
                    padding: u32_at(bytes, at + 52),
                })
            },
        }
    }

    /// What decoding `bytes` gives: the message at their start, or the
    /// reason why there is none.
    pub open spec fn parse(bytes: Seq<u8>) -> Result<TransferToHost2d, DecodeError> {
        if bytes.len() < 56 {
            Err(DecodeError::Truncated)
        } else {
            Self::parse_at(bytes, 0)
        }
    }

    /// A message with the given fields and zeroed padding.
    pub fn new(
        hdr: CtrlHeader,
        r: Rect,
        offset: u64,
        resource_id: u32,
    ) -> (message: TransferToHost2d)
        ensures
            message == (TransferToHost2d { hdr, r, offset, resource_id, padding: 0 }),
    {
        TransferToHost2d { hdr, r, offset, resource_id, padding: 0 }
    }

    /// Appends the bytes of the message to `out`.
    pub fn encode_into(&self, out: &mut Vec<u8>)
        ensures
            final(out)@ == old(out)@ + self.wire(),
    {
        self.hdr.encode_into(out);
        self.r.encode_into(out);
        put_u64(out, self.offset);
        put_u32(out, self.resource_id);
        put_u32(out, self.padding);
        assert(out@ =~= old(out)@ + self.wire());
    }

    /// The bytes of the message.
    pub fn encode(&self) -> (bytes: Vec<u8>)
        ensures
            bytes@ == self.wire(),
            bytes@.len() == 56,
    {
        let mut bytes: Vec<u8> = Vec::new();
        self.encode_into(&mut bytes);
        proof {
            self.lemma_round_trip();
        }
        assert(bytes@ =~= self.wire());
        bytes
    }

    /// Reads the message that stands in `bytes` from offset `at` on.
    pub fn decode_at(bytes: &[u8], at: usize) -> (message: Result<TransferToHost2d, DecodeError>)
        requires
            at + 56 <= bytes.len(),
        ensures
            message == Self::parse_at(bytes@, at as int),
    {
        let hdr = match CtrlHeader::decode_at(bytes, at) {
            Ok(hdr) => hdr,
            Err(e) => return Err(e),
        };
        let r = Rect::decode_at(bytes, at + 24);
        let offset: u64 = get_u64(bytes, at + 40);
        let resource_id: u32 = get_u32(bytes, at + 48);
        let padding: u32 = get_u32(bytes, at + 52);
        Ok(TransferToHost2d { hdr, r, offset, resource_id, padding })
    }

    /// Reads the message at the start of `bytes`. Fails with `Truncated`
    /// exactly when fewer than 56 bytes are given; bytes after the message
    /// are not looked at.
    pub fn decode(bytes: &[u8]) -> (message: Result<TransferToHost2d, DecodeError>)
        ensures
            message == Self::parse(bytes@),
    {
        if bytes.len() < 56 {
            return Err(DecodeError::Truncated);
        }
        Self::decode_at(bytes, 0)
    }

    /// Reading at an offset looks at the 56 bytes from that offset on and at
    /// no others.
    pub proof fn lemma_window(bytes: Seq<u8>, at: int)
        requires
            0 <= at,
            at + 56 <= bytes.len(),
        ensures
            Self::parse_at(bytes, at) == Self::parse_at(bytes.subrange(at, at + 56), 0),
    {
        let part = bytes.subrange(at, at + 56);
        CtrlHeader::lemma_window(bytes, at);
        CtrlHeader::lemma_window(part, 0);
        assert(part.subrange(0, 24) =~= bytes.subrange(at, at + 24));
        Rect::lemma_window(bytes, at + 24);
        Rect::lemma_window(part, 24);
        assert(part.subrange(24, 40) =~= bytes.subrange(at + 24, at + 40));
        lemma_u64_at_window(bytes, at, 56, 40);
        lemma_u32_at_window(bytes, at, 56, 48);
        lemma_u32_at_window(bytes, at, 56, 52);
    }

    /// Decoding the bytes of a message gives the message back, every field
    /// as it was, whatever follows the bytes.
    pub proof fn lemma_round_trip(self)
        ensures
            self.wire().len() == 56,
            Self::parse_at(self.wire(), 0) == Ok::<TransferToHost2d, DecodeError>(self),
            Self::parse(self.wire()) == Ok::<TransferToHost2d, DecodeError>(self),
            forall|rest: Seq<u8>| #[trigger]
                Self::parse(self.wire() + rest) == Ok::<TransferToHost2d, DecodeError>(self),
    {
        let w = self.wire();
        self.hdr.lemma_round_trip();
        self.r.lemma_round_trip();
        lemma_u64_round_trip(self.offset);
        lemma_u32_round_trip(self.resource_id);
        lemma_u32_round_trip(self.padding);
        assert(w.len() == 56);
        assert(w.subrange(0, 24) =~= self.hdr.wire());
        CtrlHeader::lemma_window(w, 0);
        assert(w.subrange(24, 40) =~= self.r.wire());
        Rect::lemma_window(w, 24);
        assert(w.subrange(40, 48) =~= u64_bytes(self.offset));
        lemma_u64_at_window(w, 40, 8, 0);
        assert(w.subrange(48, 52) =~= u32_bytes(self.resource_id));
        lemma_u32_at_window(w, 48, 4, 0);
        assert(w.subrange(52, 56) =~= u32_bytes(self.padding));
        lemma_u32_at_window(w, 52, 4, 0);
        assert(Self::parse_at(w, 0) == Ok::<TransferToHost2d, DecodeError>(self));
        assert forall|rest: Seq<u8>| #[trigger]
            Self::parse(w + rest) == Ok::<TransferToHost2d, DecodeError>(self) by {
            Self::lemma_window(w + rest, 0);
            Self::lemma_window(w, 0);
            assert((w + rest).subrange(0, 56) =~= w.subrange(0, 56));
        }
    }
}

/// Attaches guest memory to a resource. The memory entries follow this message.
#[derive(Clone, Copy, Debug, PartialEq, Eq)]
pub struct AttachBacking {
    /// The header that opens the message.
    pub hdr: CtrlHeader,
    /// The resource that gets the memory.
    pub resource_id: u32,
    /// Number of memory entries that follow.
    pub nr_entries: u32,
}

impl AttachBacking {
    /// Number of bytes that the message takes on the wire.
    pub const SIZE: usize = 32;

    /// The bytes of the message: its fields in order, with nothing between them.
    pub open spec fn wire(self) -> Seq<u8> {
        self.hdr.wire()
            + u32_bytes(self.resource_id)
            + u32_bytes(self.nr_entries)
    }

    /// Every padding field of the message is zero.
    pub open spec fn zero_padded(self) -> bool {
        self.hdr.zero_padded()
    }

    /// The message whose fields stand in `bytes` from offset `at` on.
    pub open spec fn parse_at(bytes: Seq<u8>, at: int) -> Result<AttachBacking, DecodeError> {
        match CtrlHeader::parse_at(bytes, at) {
            Err(e) => Err(e),
            Ok(hdr) => {
                Ok(AttachBacking {
                    hdr,
                    resource_id: u32_at(bytes, at + 24),
                    nr_entries: u32_at(bytes, at + 28),
                })
            },
        }
    }

    /// What decoding `bytes` gives: the message at their start, or the
    /// reason why there is none.
    pub open spec fn parse(bytes: Seq<u8>) -> Result<AttachBacking, DecodeError> {
        if bytes.len() < 32 {
            Err(DecodeError::Truncated)
        } else {
            Self::parse_at(bytes, 0)
        }
    }

    /// A message with the given fields.
    pub fn new(hdr: CtrlHeader, resource_id: u32, nr_entries: u32) -> (message: AttachBacking)
        ensures
            message == (AttachBacking { hdr, resource_id, nr_entries }),
    {
        AttachBacking { hdr, resource_id, nr_entries }
    }

    /// Appends the bytes of the message to `out`.
    pub fn encode_into(&self, out: &mut Vec<u8>)
        ensures
            final(out)@ == old(out)@ + self.wire(),
    {
        self.hdr.encode_into(out);
        put_u32(out, self.resource_id);
        put_u32(out, self.nr_entries);
        assert(out@ =~= old(out)@ + self.wire());
    }

    /// The bytes of the message.
    pub fn encode(&self) -> (bytes: Vec<u8>)
        ensures
            bytes@ == self.wire(),
            bytes@.len() == 32,
    {
        let mut bytes: Vec<u8> = Vec::new();
        self.encode_into(&mut bytes);
        proof {
            self.lemma_round_trip();
        }
        assert(bytes@ =~= self.wire());
        bytes
    }

    /// Reads the message that stands in `bytes` from offset `at` on.
    pub fn decode_at(bytes: &[u8], at: usize) -> (message: Result<AttachBacking, DecodeError>)
        requires
            at + 32 <= bytes.len(),
        ensures
            message == Self::parse_at(bytes@, at as int),
    {
        let hdr = match CtrlHeader::decode_at(bytes, at) {
            Ok(hdr) => hdr,
            Err(e) => return Err(e),
        };
        let resource_id: u32 = get_u32(bytes, at + 24);
        let nr_entries: u32 = get_u32(bytes, at + 28);
        Ok(AttachBacking { hdr, resource_id, nr_entries })
    }

    /// Reads the message at the start of `bytes`. Fails with `Truncated`
    /// exactly when fewer than 32 bytes are given; bytes after the message
    /// are not looked at.
    pub fn decode(bytes: &[u8]) -> (message: Result<AttachBacking, DecodeError>)
        ensures
            message == Self::parse(bytes@),
    {
        if bytes.len() < 32 {
            return Err(DecodeError::Truncated);
        }
        Self::decode_at(bytes, 0)
    }

    /// Reading at an offset looks at the 32 bytes from that offset on and at
    /// no others.
    pub proof fn lemma_window(bytes: Seq<u8>, at: int)
        requires
            0 <= at,
            at + 32 <= bytes.len(),
        ensures
            Self::parse_at(bytes, at) == Self::parse_at(bytes.subrange(at, at + 32), 0),
    {
        let part = bytes.subrange(at, at + 32);
        CtrlHeader::lemma_window(bytes, at);
        CtrlHeader::lemma_window(part, 0);
        assert(part.subrange(0, 24) =~= bytes.subrange(at, at + 24));
        lemma_u32_at_window(bytes, at, 32, 24);
        lemma_u32_at_window(bytes, at, 32, 28);
    }

    /// Decoding the bytes of a message gives the message back, every field
    /// as it was, whatever follows the bytes.
    pub proof fn lemma_round_trip(self)
        ensures
            self.wire().len() == 32,
            Self::parse_at(self.wire(), 0) == Ok::<AttachBacking, DecodeError>(self),
            Self::parse(self.wire()) == Ok::<AttachBacking, DecodeError>(self),
            forall|rest: Seq<u8>| #[trigger]
                Self::parse(self.wire() + rest) == Ok::<AttachBacking, DecodeError>(self),
    {
        let w = self.wire();
        self.hdr.lemma_round_trip();
        lemma_u32_round_trip(self.resource_id);
        lemma_u32_round_trip(self.nr_entries);
        assert(w.len() == 32);
        assert(w.subrange(0, 24) =~= self.hdr.wire());
        CtrlHeader::lemma_window(w, 0);
        assert(w.subrange(24, 28) =~= u32_bytes(self.resource_id));
        lemma_u32_at_window(w, 24, 4, 0);
        assert(w.subrange(28, 32) =~= u32_bytes(self.nr_entries));
        lemma_u32_at_window(w, 28, 4, 0);
        assert(Self::parse_at(w, 0) == Ok::<AttachBacking, DecodeError>(self));
        assert forall|rest: Seq<u8>| #[trigger]
            Self::parse(w + rest) == Ok::<AttachBacking, DecodeError>(self) by {
            Self::lemma_window(w + rest, 0);
            Self::lemma_window(w, 0);
            assert((w + rest).subrange(0, 32) =~= w.subrange(0, 32));
        }
    }
}

/// One piece of the scatter list that backs a resource.
#[derive(Clone, Copy, Debug, PartialEq, Eq)]
pub struct MemEntry {
    /// Guest physical address of the piece.
    pub addr: u64,
    /// Length of the piece in bytes.
    pub length: u32,
    /// Reserved; zero in every message that this layer builds.
    pub padding: u32,
}

impl MemEntry {
    /// Number of bytes that the message takes on the wire.
    pub const SIZE: usize = 16;

    /// The bytes of the message: its fields in order, with nothing between them.
    pub open spec fn wire(self) -> Seq<u8> {
        u64_bytes(self.addr)
            + u32_bytes(self.length)
            + u32_bytes(self.padding)
    }

    /// Every padding field of the message is zero.
    pub open spec fn zero_padded(self) -> bool {
        self.padding == 0
    }

    /// The message whose fields stand in `bytes` from offset `at` on.
    pub open spec fn parse_at(bytes: Seq<u8>, at: int) -> MemEntry {
        MemEntry {
            addr: u64_at(bytes, at),
            length: u32_at(bytes, at + 8),
            padding: u32_at(bytes, at + 12),
        }
    }

    /// What decoding `bytes` gives: the message at their start, or the
    /// reason why there is none.
    pub open spec fn parse(bytes: Seq<u8>) -> Result<MemEntry, DecodeError> {
        if bytes.len() < 16 {
            Err(DecodeError::Truncated)
        } else {
            Ok(Self::parse_at(bytes, 0))
        }
    }

    /// A message with the given fields and zeroed padding.
    pub fn new(addr: u64, length: u32) -> (message: MemEntry)
        ensures
            message == (MemEntry { addr, length, padding: 0 }),
    {
        MemEntry { addr, length, padding: 0 }
    }

    /// Appends the bytes of the message to `out`.
    pub fn encode_into(&self, out: &mut Vec<u8>)
        ensures
            final(out)@ == old(out)@ + self.wire(),
    {
        put_u64(out, self.addr);
        put_u32(out, self.length);
        put_u32(out, self.padding);
        assert(out@ =~= old(out)@ + self.wire());
    }

    /// The bytes of the message.
    pub fn encode(&self) -> (bytes: Vec<u8>)
        ensures
            bytes@ == self.wire(),
            bytes@.len() == 16,
    {
        let mut bytes: Vec<u8> = Vec::new();
        self.encode_into(&mut bytes);
        proof {
            self.lemma_round_trip();
        }
        assert(bytes@ =~= self.wire());
        bytes
    }

    /// Reads the message that stands in `bytes` from offset `at` on.
    pub fn decode_at(bytes: &[u8], at: usize) -> (message: MemEntry)
        requires
            at + 16 <= bytes.len(),
        ensures
            message == Self::parse_at(bytes@, at as int),
    {
        let addr: u64 = get_u64(bytes, at);
        let length: u32 = get_u32(bytes, at + 8);
        let padding: u32 = get_u32(bytes, at + 12);
        MemEntry { addr, length, padding }
    }

    /// Reads the message at the start of `bytes`. Fails with `Truncated`
    /// exactly when fewer than 16 bytes are given; bytes after the message
    /// are not looked at.
    pub fn decode(bytes: &[u8]) -> (message: Result<MemEntry, DecodeError>)
        ensures
            message == Self::parse(bytes@),
    {
        if bytes.len() < 16 {
            return Err(DecodeError::Truncated);
        }
        Ok(Self::decode_at(bytes, 0))
    }

    /// Reading at an offset looks at the 16 bytes from that offset on and at
    /// no others.
    pub proof fn lemma_window(bytes: Seq<u8>, at: int)
        requires
            0 <= at,
            at + 16 <= bytes.len(),
        ensures
            Self::parse_at(bytes, at) == Self::parse_at(bytes.subrange(at, at + 16), 0),
    {
        lemma_u64_at_window(bytes, at, 16, 0);
        lemma_u32_at_window(bytes, at, 16, 8);
        lemma_u32_at_window(bytes, at, 16, 12);
    }

    /// Decoding the bytes of a message gives the message back, every field
    /// as it was, whatever follows the bytes.
    pub proof fn lemma_round_trip(self)
        ensures
            self.wire().len() == 16,
            Self::parse_at(self.wire(), 0) == self,
            Self::parse(self.wire()) == Ok::<MemEntry, DecodeError>(self),
            forall|rest: Seq<u8>| #[trigger]
                Self::parse(self.wire() + rest) == Ok::<MemEntry, DecodeError>(self),
    {
        let w = self.wire();
        lemma_u64_round_trip(self.addr);
        lemma_u32_round_trip(self.length);
        lemma_u32_round_trip(self.padding);
        assert(w.len() == 16);
        assert(w.subrange(0, 8) =~= u64_bytes(self.addr));
        lemma_u64_at_window(w, 0, 8, 0);
        assert(w.subrange(8, 12) =~= u32_bytes(self.length));
        lemma_u32_at_window(w, 8, 4, 0);
        assert(w.subrange(12, 16) =~= u32_bytes(self.padding));
        lemma_u32_at_window(w, 12, 4, 0);
        assert(Self::parse_at(w, 0) == self);
        assert forall|rest: Seq<u8>| #[trigger]
            Self::parse(w + rest) == Ok::<MemEntry, DecodeError>(self) by {
            Self::lemma_window(w + rest, 0);
            Self::lemma_window(w, 0);
            assert((w + rest).subrange(0, 16) =~= w.subrange(0, 16));
        }
    }
}

/// Detaches the guest memory of a resource.
#[derive(Clone, Copy, Debug, PartialEq, Eq)]
pub struct DetachBacking {
    /// The header that opens the message.
    pub hdr: CtrlHeader,
    /// The resource that loses its memory.
    pub resource_id: u32,
    /// Reserved; zero in every message that this layer builds.
    pub padding: u32,
}

impl DetachBacking {
    /// Number of bytes that the message takes on the wire.
    pub const SIZE: usize = 32;

    /// The bytes of the message: its fields in order, with nothing between them.
    pub open spec fn wire(self) -> Seq<u8> {
        self.hdr.wire()
            + u32_bytes(self.resource_id)
            + u32_bytes(self.padding)
    }

    /// Every padding field of the message is zero.
    pub open spec fn zero_padded(self) -> bool {
        &&& self.hdr.zero_padded()
        &&& self.padding == 0
    }

    /// The message whose fields stand in `bytes` from offset `at` on.
    pub open spec fn parse_at(bytes: Seq<u8>, at: int) -> Result<DetachBacking, DecodeError> {
        match CtrlHeader::parse_at(bytes, at) {
            Err(e) => Err(e),
            Ok(hdr) => {
                Ok(DetachBacking {
                    hdr,
                    resource_id: u32_at(bytes, at + 24),
                    padding: u32_at(bytes, at + 28),
                })
            },
        }
    }

    /// What decoding `bytes` gives: the message at their start, or the
    /// reason why there is none.
    pub open spec fn parse(bytes: Seq<u8>) -> Result<DetachBacking, DecodeError> {
        if bytes.len() < 32 {
            Err(DecodeError::Truncated)
        } else {
            Self::parse_at(bytes, 0)
        }
    }

    /// A message with the given fields and zeroed padding.
    pub fn new(hdr: CtrlHeader, resource_id: u32) -> (message: DetachBacking)
        ensures
            message == (DetachBacking { hdr, resource_id, padding: 0 }),
    {
        DetachBacking { hdr, resource_id, padding: 0 }
    }

    /// Appends the bytes of the message to `out`.
    pub fn encode_into(&self, out: &mut Vec<u8>)
        ensures
            final(out)@ == old(out)@ + self.wire(),
    {
        self.hdr.encode_into(out);
        put_u32(out, self.resource_id);
        put_u32(out, self.padding);
        assert(out@ =~= old(out)@ + self.wire());
    }

    /// The bytes of the message.
    pub fn encode(&self) -> (bytes: Vec<u8>)
        ensures
            bytes@ == self.wire(),
            bytes@.len() == 32,
    {
        let mut bytes: Vec<u8> = Vec::new();
        self.encode_into(&mut bytes);
        proof {
            self.lemma_round_trip();
        }
        assert(bytes@ =~= self.wire());
        bytes
    }

    /// Reads the message that stands in `bytes` from offset `at` on.
    pub fn decode_at(bytes: &[u8], at: usize) -> (message: Result<DetachBacking, DecodeError>)
        requires
            at + 32 <= bytes.len(),
        ensures
            message == Self::parse_at(bytes@, at as int),
    {
        let hdr = match CtrlHeader::decode_at(bytes, at) {
            Ok(hdr) => hdr,
            Err(e) => return Err(e),
        };
        let resource_id: u32 = get_u32(bytes, at + 24);
        let padding: u32 = get_u32(bytes, at + 28);
        Ok(DetachBacking { hdr, resource_id, padding })
    }

    /// Reads the message at the start of `bytes`. Fails with `Truncated`
    /// exactly when fewer than 32 bytes are given; bytes after the message
    /// are not looked at.
    pub fn decode(bytes: &[u8]) -> (message: Result<DetachBacking, DecodeError>)
        ensures
            message == Self::parse(bytes@),
    {
        if bytes.len() < 32 {
            return Err(DecodeError::Truncated);
        }
        Self::decode_at(bytes, 0)
    }

    /// Reading at an offset looks at the 32 bytes from that offset on and at
    /// no others.
    pub proof fn lemma_window(bytes: Seq<u8>, at: int)
        requires
            0 <= at,
            at + 32 <= bytes.len(),
        ensures
            Self::parse_at(bytes, at) == Self::parse_at(bytes.subrange(at, at + 32), 0),
    {
        let part = bytes.subrange(at, at + 32);
        CtrlHeader::lemma_window(bytes, at);
        CtrlHeader::lemma_window(part, 0);
        assert(part.subrange(0, 24) =~= bytes.subrange(at, at + 24));
        lemma_u32_at_window(bytes, at, 32, 24);
        lemma_u32_at_window(bytes, at, 32, 28);
    }

    /// Decoding the bytes of a message gives the message back, every field
    /// as it was, whatever follows the bytes.
    pub proof fn lemma_round_trip(self)
        ensures
            self.wire().len() == 32,
            Self::parse_at(self.wire(), 0) == Ok::<DetachBacking, DecodeError>(self),
            Self::parse(self.wire()) == Ok::<DetachBacking, DecodeError>(self),
            forall|rest: Seq<u8>| #[trigger]
                Self::parse(self.wire() + rest) == Ok::<DetachBacking, DecodeError>(self),
    {
        let w = self.wire();
        self.hdr.lemma_round_trip();
        lemma_u32_round_trip(self.resource_id);
        lemma_u32_round_trip(self.padding);
        assert(w.len() == 32);
        assert(w.subrange(0, 24) =~= self.hdr.wire());
        CtrlHeader::lemma_window(w, 0);
        assert(w.subrange(24, 28) =~= u32_bytes(self.resource_id));
        lemma_u32_at_window(w, 24, 4, 0);
        assert(w.subrange(28, 32) =~= u32_bytes(self.padding));
        lemma_u32_at_window(w, 28, 4, 0);
        assert(Self::parse_at(w, 0) == Ok::<DetachBacking, DecodeError>(self));
        assert forall|rest: Seq<u8>| #[trigger]
            Self::parse(w + rest) == Ok::<DetachBacking, DecodeError>(self) by {
            Self::lemma_window(w + rest, 0);
            Self::lemma_window(w, 0);
            assert((w + rest).subrange(0, 32) =~= w.subrange(0, 32));
        }
    }
}
} // verus!
