//! Display enumeration: rectangles, scanout modes, and the EDID exchange.

use crate::header::{CtrlHeader, DecodeError};
use crate::wire::{get_u32, lemma_u32_at_window, lemma_u32_round_trip, put_u32, u32_at, u32_bytes};
use vstd::prelude::*;

verus! {

/// Number of scanouts that a display-info response describes: the protocol's
/// fixed maximum.
pub const MAX_SCANOUTS: usize = 16;

/// An axis-aligned region in device pixels.
#[derive(Clone, Copy, Debug, PartialEq, Eq)]
pub struct Rect {
    /// Left edge.
    pub x: u32,
    /// Top edge.
    pub y: u32,
    /// Extent to the right of `x`.
    pub width: u32,
    /// Extent below `y`.
    pub height: u32,
}

impl Rect {
    /// Number of bytes that the message takes on the wire.
    pub const SIZE: usize = 16;

    /// The bytes of the message: its fields in order, with nothing between them.
    pub open spec fn wire(self) -> Seq<u8> {
        u32_bytes(self.x)
            + u32_bytes(self.y)
            + u32_bytes(self.width)
            + u32_bytes(self.height)
    }

    /// The message whose fields stand in `bytes` from offset `at` on.
    pub open spec fn parse_at(bytes: Seq<u8>, at: int) -> Rect {
        Rect {
            x: u32_at(bytes, at),
            y: u32_at(bytes, at + 4),
            width: u32_at(bytes, at + 8),
            height: u32_at(bytes, at + 12),
        }
    }

    /// What decoding `bytes` gives: the message at their start, or the
    /// reason why there is none.
    pub open spec fn parse(bytes: Seq<u8>) -> Result<Rect, DecodeError> {
        if bytes.len() < 16 {
            Err(DecodeError::Truncated)
        } else {
            Ok(Self::parse_at(bytes, 0))
        }
    }

    /// A message with the given fields.
    pub fn new(x: u32, y: u32, width: u32, height: u32) -> (message: Rect)
        ensures
            message == (Rect { x, y, width, height }),
    {
        Rect { x, y, width, height }
    }

    /// Appends the bytes of the message to `out`.
    pub fn encode_into(&self, out: &mut Vec<u8>)
        ensures
            final(out)@ == old(out)@ + self.wire(),
    {
        put_u32(out, self.x);
        put_u32(out, self.y);
        put_u32(out, self.width);
        put_u32(out, self.height);
        assert(out@ =~= old(out)@ + self.wire());
    }

    /// The bytes of the message.
    pub fn encode(&self) -> (bytes: Vec<u8>)
        ensures
            bytes@ == self.wire(),
            bytes@.len() == 16,
    {
        let mut bytes: Vec<u8> = Vec::new();
        self.encode_into(&mut bytes);
        proof {
            self.lemma_round_trip();
        }
        assert(bytes@ =~= self.wire());
        bytes
    }

    /// Reads the message that stands in `bytes` from offset `at` on.
    pub fn decode_at(bytes: &[u8], at: usize) -> (message: Rect)
        requires
            at + 16 <= bytes.len(),
        ensures
            message == Self::parse_at(bytes@, at as int),
    {
        let x: u32 = get_u32(bytes, at);
        let y: u32 = get_u32(bytes, at + 4);
        let width: u32 = get_u32(bytes, at + 8);
        let height: u32 = get_u32(bytes, at + 12);
        Rect { x, y, width, height }
    }

    /// Reads the message at the start of `bytes`. Fails with `Truncated`
    /// exactly when fewer than 16 bytes are given; bytes after the message
    /// are not looked at.
    pub fn decode(bytes: &[u8]) -> (message: Result<Rect, DecodeError>)
        ensures
            message == Self::parse(bytes@),
    {
        if bytes.len() < 16 {
            return Err(DecodeError::Truncated);
        }
        Ok(Self::decode_at(bytes, 0))
    }

    /// Reading at an offset looks at the 16 bytes from that offset on and at
    /// no others.
    pub proof fn lemma_window(bytes: Seq<u8>, at: int)
        requires
            0 <= at,
            at + 16 <= bytes.len(),
        ensures
            Self::parse_at(bytes, at) == Self::parse_at(bytes.subrange(at, at + 16), 0),
    {
        lemma_u32_at_window(bytes, at, 16, 0);
        lemma_u32_at_window(bytes, at, 16, 4);
        lemma_u32_at_window(bytes, at, 16, 8);
        lemma_u32_at_window(bytes, at, 16, 12);
    }

    /// Decoding the bytes of a message gives the message back, every field
    /// as it was, whatever follows the bytes.
    pub proof fn lemma_round_trip(self)
        ensures
            self.wire().len() == 16,
            Self::parse_at(self.wire(), 0) == self,
            Self::parse(self.wire()) == Ok::<Rect, DecodeError>(self),
            forall|rest: Seq<u8>| #[trigger]
                Self::parse(self.wire() + rest) == Ok::<Rect, DecodeError>(self),
    {
        let w = self.wire();
        lemma_u32_round_trip(self.x);
        lemma_u32_round_trip(self.y);
        lemma_u32_round_trip(self.width);
        lemma_u32_round_trip(self.height);
        assert(w.len() == 16);
        assert(w.subrange(0, 4) =~= u32_bytes(self.x));
        lemma_u32_at_window(w, 0, 4, 0);
        assert(w.subrange(4, 8) =~= u32_bytes(self.y));
        lemma_u32_at_window(w, 4, 4, 0);
        assert(w.subrange(8, 12) =~= u32_bytes(self.width));
        lemma_u32_at_window(w, 8, 4, 0);
        assert(w.subrange(12, 16) =~= u32_bytes(self.height));
        lemma_u32_at_window(w, 12, 4, 0);
        assert(Self::parse_at(w, 0) == self);
        assert forall|rest: Seq<u8>| #[trigger]
            Self::parse(w + rest) == Ok::<Rect, DecodeError>(self) by {
            Self::lemma_window(w + rest, 0);
            Self::lemma_window(w, 0);
            assert((w + rest).subrange(0, 16) =~= w.subrange(0, 16));
        }
    }
}

/// The mode of one scanout.
#[derive(Clone, Copy, Debug, PartialEq, Eq)]
pub struct DisplayOne {
    /// Position and size of the scanout.
    pub r: Rect,
    /// Nonzero when the scanout is connected.
    pub enabled: u32,
    /// Mode flags.
    pub flags: u32,
}

impl DisplayOne {
    /// Number of bytes that the message takes on the wire.
    pub const SIZE: usize = 24;

    /// The bytes of the message: its fields in order, with nothing between them.
    pub open spec fn wire(self) -> Seq<u8> {
        self.r.wire()
            + u32_bytes(self.enabled)
            + u32_bytes(self.flags)
    }

    /// The message whose fields stand in `bytes` from offset `at` on.
    pub open spec fn parse_at(bytes: Seq<u8>, at: int) -> DisplayOne {
        DisplayOne {
            r: Rect::parse_at(bytes, at),
            enabled: u32_at(bytes, at + 16),
            flags: u32_at(bytes, at + 20),
        }
    }

    /// What decoding `bytes` gives: the message at their start, or the
    /// reason why there is none.
    pub open spec fn parse(bytes: Seq<u8>) -> Result<DisplayOne, DecodeError> {
        if bytes.len() < 24 {
            Err(DecodeError::Truncated)
        } else {
            Ok(Self::parse_at(bytes, 0))
        }
    }

    /// A message with the given fields.
    pub fn new(r: Rect, enabled: u32, flags: u32) -> (message: DisplayOne)
        ensures
            message == (DisplayOne { r, enabled, flags }),
    {
        DisplayOne { r, enabled, flags }
    }

    /// Appends the bytes of the message to `out`.
    pub fn encode_into(&self, out: &mut Vec<u8>)
        ensures
            final(out)@ == old(out)@ + self.wire(),
    {
        self.r.encode_into(out);
        put_u32(out, self.enabled);
        put_u32(out, self.flags);
        assert(out@ =~= old(out)@ + self.wire());
    }

    /// The bytes of the message.
    pub fn encode(&self) -> (bytes: Vec<u8>)
        ensures
            bytes@ == self.wire(),
            bytes@.len() == 24,
    {
        let mut bytes: Vec<u8> = Vec::new();
        self.encode_into(&mut bytes);
        proof {
            self.lemma_round_trip();
        }
        assert(bytes@ =~= self.wire());
        bytes
    }

    /// Reads the message that stands in `bytes` from offset `at` on.
    pub fn decode_at(bytes: &[u8], at: usize) -> (message: DisplayOne)
        requires
            at + 24 <= bytes.len(),
        ensures
            message == Self::parse_at(bytes@, at as int),
    {
        let r = Rect::decode_at(bytes, at);
        let enabled: u32 = get_u32(bytes, at + 16);
        let flags: u32 = get_u32(bytes, at + 20);
        DisplayOne { r, enabled, flags }
    }

    /// Reads the message at the start of `bytes`. Fails with `Truncated`
    /// exactly when fewer than 24 bytes are given; bytes after the message
    /// are not looked at.
    pub fn decode(bytes: &[u8]) -> (message: Result<DisplayOne, DecodeError>)
        ensures
            message == Self::parse(bytes@),
    {
        if bytes.len() < 24 {
            return Err(DecodeError::Truncated);
        }
        Ok(Self::decode_at(bytes, 0))
    }

    /// Reading at an offset looks at the 24 bytes from that offset on and at
    /// no others.
    pub proof fn lemma_window(bytes: Seq<u8>, at: int)
        requires
            0 <= at,
            at + 24 <= bytes.len(),
        ensures
            Self::parse_at(bytes, at) == Self::parse_at(bytes.subrange(at, at + 24), 0),
    {
        let part = bytes.subrange(at, at + 24);
        Rect::lemma_window(bytes, at);
        Rect::lemma_window(part, 0);
        assert(part.subrange(0, 16) =~= bytes.subrange(at, at + 16));
        lemma_u32_at_window(bytes, at, 24, 16);
        lemma_u32_at_window(bytes, at, 24, 20);
    }

    /// Decoding the bytes of a message gives the message back, every field
    /// as it was, whatever follows the bytes.
    pub proof fn lemma_round_trip(self)
        ensures
            self.wire().len() == 24,
            Self::parse_at(self.wire(), 0) == self,
            Self::parse(self.wire()) == Ok::<DisplayOne, DecodeError>(self),
            forall|rest: Seq<u8>| #[trigger]
                Self::parse(self.wire() + rest) == Ok::<DisplayOne, DecodeError>(self),
    {
        let w = self.wire();
        self.r.lemma_round_trip();
        lemma_u32_round_trip(self.enabled);
        lemma_u32_round_trip(self.flags);
        assert(w.len() == 24);
        assert(w.subrange(0, 16) =~= self.r.wire());
        Rect::lemma_window(w, 0);
        assert(w.subrange(16, 20) =~= u32_bytes(self.enabled));
        lemma_u32_at_window(w, 16, 4, 0);
        assert(w.subrange(20, 24) =~= u32_bytes(self.flags));
        lemma_u32_at_window(w, 20, 4, 0);
        assert(Self::parse_at(w, 0) == self);
        assert forall|rest: Seq<u8>| #[trigger]
            Self::parse(w + rest) == Ok::<DisplayOne, DecodeError>(self) by {
            Self::lemma_window(w + rest, 0);
            Self::lemma_window(w, 0);
            assert((w + rest).subrange(0, 24) =~= w.subrange(0, 24));
        }
    }
}

/// Asks for the EDID blob of one scanout.
#[derive(Clone, Copy, Debug, PartialEq, Eq)]
pub struct GetEdid {
    /// The header that opens the message.
    pub hdr: CtrlHeader,
    /// The scanout asked about.
    pub scanout: u32,
    /// Reserved; zero in every message that this layer builds.
    pub padding: u32,
}

impl GetEdid {
    /// Number of bytes that the message takes on the wire.
    pub const SIZE: usize = 32;

    /// The bytes of the message: its fields in order, with nothing between them.
    pub open spec fn wire(self) -> Seq<u8> {
        self.hdr.wire()
            + u32_bytes(self.scanout)
            + u32_bytes(self.padding)
    }

    /// Every padding field of the message is zero.
    pub open spec fn zero_padded(self) -> bool {
        &&& self.hdr.zero_padded()
        &&& self.padding == 0
    }

    /// The message whose fields stand in `bytes` from offset `at` on.
    pub open spec fn parse_at(bytes: Seq<u8>, at: int) -> Result<GetEdid, DecodeError> {
        match CtrlHeader::parse_at(bytes, at) {
            Err(e) => Err(e),
            Ok(hdr) => {
                Ok(GetEdid {
                    hdr,
                    scanout: u32_at(bytes, at + 24),
                    padding: u32_at(bytes, at + 28),
                })
            },
        }
    }

    /// What decoding `bytes` gives: the message at their start, or the
    /// reason why there is none.
    pub open spec fn parse(bytes: Seq<u8>) -> Result<GetEdid, DecodeError> {
        if bytes.len() < 32 {
            Err(DecodeError::Truncated)
        } else {
            Self::parse_at(bytes, 0)
        }
    }

    /// A message with the given fields and zeroed padding.
    pub fn new(hdr: CtrlHeader, scanout: u32) -> (message: GetEdid)
        ensures
            message == (GetEdid { hdr, scanout, padding: 0 }),
    {
        GetEdid { hdr, scanout, padding: 0 }
    }

    /// Appends the bytes of the message to `out`.
    pub fn encode_into(&self, out: &mut Vec<u8>)
        ensures
            final(out)@ == old(out)@ + self.wire(),
    {
        self.hdr.encode_into(out);
        put_u32(out, self.scanout);
        put_u32(out, self.padding);
        assert(out@ =~= old(out)@ + self.wire());
    }

    /// The bytes of the message.
    pub fn encode(&self) -> (bytes: Vec<u8>)
        ensures
            bytes@ == self.wire(),
            bytes@.len() == 32,
    {
        let mut bytes: Vec<u8> = Vec::new();
        self.encode_into(&mut bytes);
        proof {
            self.lemma_round_trip();
        }
        assert(bytes@ =~= self.wire());
        bytes
    }

    /// Reads the message that stands in `bytes` from offset `at` on.
    pub fn decode_at(bytes: &[u8], at: usize) -> (message: Result<GetEdid, DecodeError>)
        requires
            at + 32 <= bytes.len(),
        ensures
            message == Self::parse_at(bytes@, at as int),
    {
        let hdr = match CtrlHeader::decode_at(bytes, at) {
            Ok(hdr) => hdr,
            Err(e) => return Err(e),
        };
        let scanout: u32 = get_u32(bytes, at + 24);
        let padding: u32 = get_u32(bytes, at + 28);
        Ok(GetEdid { hdr, scanout, padding })
    }

    /// Reads the message at the start of `bytes`. Fails with `Truncated`
    /// exactly when fewer than 32 bytes are given; bytes after the message
    /// are not looked at.
    pub fn decode(bytes: &[u8]) -> (message: Result<GetEdid, DecodeError>)
        ensures
            message == Self::parse(bytes@),
    {
        if bytes.len() < 32 {
            return Err(DecodeError::Truncated);
        }
        Self::decode_at(bytes, 0)
    }

    /// Reading at an offset looks at the 32 bytes from that offset on and at
    /// no others.
    pub proof fn lemma_window(bytes: Seq<u8>, at: int)
        requires
            0 <= at,
            at + 32 <= bytes.len(),
        ensures
            Self::parse_at(bytes, at) == Self::parse_at(bytes.subrange(at, at + 32), 0),
    {
        let part = bytes.subrange(at, at + 32);
        CtrlHeader::lemma_window(bytes, at);
        CtrlHeader::lemma_window(part, 0);
        assert(part.subrange(0, 24) =~= bytes.subrange(at, at + 24));
        lemma_u32_at_window(bytes, at, 32, 24);
        lemma_u32_at_window(bytes, at, 32, 28);
    }

    /// Decoding the bytes of a message gives the message back, every field
    /// as it was, whatever follows the bytes.
    pub proof fn lemma_round_trip(self)
        ensures
            self.wire().len() == 32,
            Self::parse_at(self.wire(), 0) == Ok::<GetEdid, DecodeError>(self),
            Self::parse(self.wire()) == Ok::<GetEdid, DecodeError>(self),
            forall|rest: Seq<u8>| #[trigger]
                Self::parse(self.wire() + rest) == Ok::<GetEdid, DecodeError>(self),
    {
        let w = self.wire();
        self.hdr.lemma_round_trip();
        lemma_u32_round_trip(self.scanout);
        lemma_u32_round_trip(self.padding);
        assert(w.len() == 32);
        assert(w.subrange(0, 24) =~= self.hdr.wire());
        CtrlHeader::lemma_window(w, 0);
        assert(w.subrange(24, 28) =~= u32_bytes(self.scanout));
        lemma_u32_at_window(w, 24, 4, 0);
        assert(w.subrange(28, 32) =~= u32_bytes(self.padding));
        lemma_u32_at_window(w, 28, 4, 0);
        assert(Self::parse_at(w, 0) == Ok::<GetEdid, DecodeError>(self));
        assert forall|rest: Seq<u8>| #[trigger]
            Self::parse(w + rest) == Ok::<GetEdid, DecodeError>(self) by {
            Self::lemma_window(w + rest, 0);
            Self::lemma_window(w, 0);
            assert((w + rest).subrange(0, 32) =~= w.subrange(0, 32));
        }
    }
}
/// Number of bytes of EDID data that an EDID response carries.
pub const EDID_SIZE: usize = 1024;

/// The bytes of a run of scanout modes, one mode after the other.
pub open spec fn modes_wire(modes: Seq<DisplayOne>) -> Seq<u8>
    decreases modes.len(),
{
    if modes.len() == 0 {
        Seq::empty()
    } else {
        modes_wire(modes.drop_last()) + modes.last().wire()
    }
}

/// The 24 bytes that hold mode number `k` in a run of modes.
pub open spec fn mode_slot(bytes: Seq<u8>, k: int) -> Seq<u8> {
    bytes.subrange(24 * k, 24 * k + 24)
}

/// A run of modes takes 24 bytes for each mode, and slot `k` holds the bytes
/// of mode `k`.
pub proof fn lemma_modes_wire(modes: Seq<DisplayOne>)
    ensures
        modes_wire(modes).len() == 24 * modes.len(),
        forall|k: int|
            0 <= k < modes.len() ==> #[trigger] mode_slot(modes_wire(modes), k) == modes[k].wire(),
    decreases modes.len(),
{
    if modes.len() > 0 {
        let front = modes.drop_last();
        let n = front.len() as int;
        lemma_modes_wire(front);
        modes.last().lemma_round_trip();
        let w = modes_wire(modes);
        assert forall|k: int| 0 <= k < modes.len() implies #[trigger] mode_slot(w, k)
            == modes[k].wire() by {
            if k < n {
                assert(mode_slot(w, k) =~= mode_slot(modes_wire(front), k));
                assert(front[k] == modes[k]);
            } else {
                assert(mode_slot(w, k) =~= modes.last().wire());
            }
        }
    }
}

/// The answer to a display-info request: the mode of every scanout.
#[derive(Clone, Copy, Debug, PartialEq, Eq)]
pub struct RespDisplayInfo {
    /// The header that opens the message.
    pub hdr: CtrlHeader,
    /// One mode for each of the sixteen scanouts.
    pub pmodes: [DisplayOne; MAX_SCANOUTS],
}

/// What a display-info response holds.
pub struct RespDisplayInfoView {
    pub hdr: CtrlHeader,
    pub pmodes: Seq<DisplayOne>,
}

impl View for RespDisplayInfo {
    type V = RespDisplayInfoView;

    open spec fn view(&self) -> RespDisplayInfoView {
        RespDisplayInfoView { hdr: self.hdr, pmodes: self.pmodes@ }
    }
}

impl RespDisplayInfoView {
    /// The bytes of the message: the header, then the modes in order.
    pub open spec fn wire(self) -> Seq<u8> {
        self.hdr.wire() + modes_wire(self.pmodes)
    }

    /// Decoding the bytes of a response gives the response back, every
    /// field as it was, whatever follows the bytes.
    pub proof fn lemma_round_trip(self)
        requires
            self.pmodes.len() == 16,
        ensures
            self.wire().len() == 408,
            RespDisplayInfo::parse(self.wire()) == Ok::<RespDisplayInfoView, DecodeError>(self),
            forall|rest: Seq<u8>| #[trigger]
                RespDisplayInfo::parse(self.wire() + rest) == Ok::<
                    RespDisplayInfoView,
                    DecodeError,
                >(self),
    {
        let w = self.wire();
        self.hdr.lemma_round_trip();
        lemma_modes_wire(self.pmodes);
        assert forall|rest: Seq<u8>| #[trigger]
            RespDisplayInfo::parse(w + rest) == Ok::<RespDisplayInfoView, DecodeError>(self) by {
            let all = w + rest;
            CtrlHeader::lemma_window(all, 0);
            assert(all.subrange(0, 24) =~= self.hdr.wire());
            let modes = Seq::new(16, |k: int| DisplayOne::parse_at(all, 24 + 24 * k));
            assert forall|k: int| 0 <= k < 16 implies modes[k] == self.pmodes[k] by {
                DisplayOne::lemma_window(all, 24 + 24 * k);
                assert(all.subrange(24 + 24 * k, 24 + 24 * k + 24) =~= mode_slot(
                    modes_wire(self.pmodes),
                    k,
                ));
                self.pmodes[k].lemma_round_trip();
            }
            assert(modes =~= self.pmodes);
        }
        assert(w + Seq::<u8>::empty() =~= w);
    }
}

impl RespDisplayInfo {
    /// Number of bytes that the message takes on the wire.
    pub const SIZE: usize = 408;

    /// What decoding `bytes` gives: the response at their start, with mode
    /// `k` read at offset `24 + 24 * k`, or the reason why there is none.
    pub open spec fn parse(bytes: Seq<u8>) -> Result<RespDisplayInfoView, DecodeError> {
        if bytes.len() < 408 {
            Err(DecodeError::Truncated)
        } else {
            match CtrlHeader::parse_at(bytes, 0) {
                Err(e) => Err(e),
                Ok(hdr) => Ok(
                    RespDisplayInfoView {
                        hdr,
                        pmodes: Seq::new(16, |k: int| DisplayOne::parse_at(bytes, 24 + 24 * k)),
                    },
                ),
            }
        }
    }

    /// A response with the given header and modes.
    pub fn new(hdr: CtrlHeader, pmodes: [DisplayOne; MAX_SCANOUTS]) -> (message: RespDisplayInfo)
        ensures
            message == (RespDisplayInfo { hdr, pmodes }),
    {
        RespDisplayInfo { hdr, pmodes }
    }

    /// Appends the bytes of the message to `out`.
    pub fn encode_into(&self, out: &mut Vec<u8>)
        ensures
            final(out)@ == old(out)@ + self@.wire(),
    {
        let ghost before = out@;
        self.hdr.encode_into(out);
        let mut k: usize = 0;
        assert(self.pmodes@.take(0) =~= Seq::<DisplayOne>::empty());
        while k < MAX_SCANOUTS
            invariant
                k <= MAX_SCANOUTS,
                out@ == before + self.hdr.wire() + modes_wire(self.pmodes@.take(k as int)),
            decreases MAX_SCANOUTS - k,
        {
            let ghost sofar = out@;
            self.pmodes[k].encode_into(out);
            proof {
                let next = self.pmodes@.take(k + 1);
                assert(next.drop_last() =~= self.pmodes@.take(k as int));
                assert(next.last() == self.pmodes@[k as int]);
                assert(out@ =~= before + self.hdr.wire() + modes_wire(next));
            }
            k += 1;
        }
        assert(self.pmodes@.take(16) =~= self.pmodes@);
        assert(out@ =~= before + self@.wire());
    }

    /// The bytes of the message.
    pub fn encode(&self) -> (bytes: Vec<u8>)
        ensures
            bytes@ == self@.wire(),
            bytes@.len() == 408,
    {
        let mut bytes: Vec<u8> = Vec::new();
        self.encode_into(&mut bytes);
        proof {
            self@.lemma_round_trip();
        }
        assert(bytes@ =~= self@.wire());
        bytes
    }

    /// Reads the response at the start of `bytes`. Fails with `Truncated`
    /// exactly when fewer than 408 bytes are given; bytes after the message
    /// are not looked at.
    pub fn decode(bytes: &[u8]) -> (message: Result<RespDisplayInfo, DecodeError>)
        ensures
            match message {
                Ok(m) => Self::parse(bytes@) == Ok::<RespDisplayInfoView, DecodeError>(m@),
                Err(e) => Self::parse(bytes@) == Err::<RespDisplayInfoView, DecodeError>(e),
            },
    {
        if bytes.len() < 408 {
            return Err(DecodeError::Truncated);
        }
        let hdr = match CtrlHeader::decode_at(bytes, 0) {
            Ok(hdr) => hdr,
            Err(e) => return Err(e),
        };
        let blank = DisplayOne { r: Rect { x: 0, y: 0, width: 0, height: 0 }, enabled: 0, flags: 0 };
        let mut pmodes: [DisplayOne; MAX_SCANOUTS] = [blank; MAX_SCANOUTS];
        let mut k: usize = 0;
        while k < MAX_SCANOUTS
            invariant
                k <= MAX_SCANOUTS,
                bytes.len() >= 408,
                forall|j: int|
                    0 <= j < k ==> #[trigger] pmodes@[j] == DisplayOne::parse_at(
                        bytes@,
                        24 + 24 * j,
                    ),
            decreases MAX_SCANOUTS - k,
        {
            pmodes[k] = DisplayOne::decode_at(bytes, 24 + 24 * k);
            k += 1;
        }
        assert(pmodes@ =~= Seq::new(16, |k: int| DisplayOne::parse_at(bytes@, 24 + 24 * k)));
        Ok(RespDisplayInfo { hdr, pmodes })
    }
}

/// The answer to an EDID request: the blob, in a buffer of fixed size.
#[derive(Clone, Copy, Debug, PartialEq, Eq)]
pub struct RespEdid {
    /// The header that opens the message.
    pub hdr: CtrlHeader,
    /// Number of bytes at the start of `edid` that hold the blob.
    pub size: u32,
    /// Reserved; zero in every message that this layer builds.
    pub padding: u32,
    /// The blob, followed by unused bytes.
    pub edid: [u8; EDID_SIZE],
}

/// What an EDID response holds.
pub struct RespEdidView {
    pub hdr: CtrlHeader,
    pub size: u32,
    pub padding: u32,
    pub edid: Seq<u8>,
}

impl View for RespEdid {
    type V = RespEdidView;

    open spec fn view(&self) -> RespEdidView {
        RespEdidView { hdr: self.hdr, size: self.size, padding: self.padding, edid: self.edid@ }
    }
}

impl RespEdidView {
    /// The bytes of the message: its fields in order, with nothing between
    /// them.
    pub open spec fn wire(self) -> Seq<u8> {
        self.hdr.wire() + u32_bytes(self.size) + u32_bytes(self.padding) + self.edid
    }

    /// Every padding field of the message is zero.
    pub open spec fn zero_padded(self) -> bool {
        self.hdr.zero_padded() && self.padding == 0
    }

    /// The part of the buffer that holds the blob: its first `size` bytes,
    /// or all of it where `size` exceeds the buffer.
    pub open spec fn valid_edid(self) -> Seq<u8> {
        if self.size as int <= self.edid.len() {
            self.edid.take(self.size as int)
        } else {
            self.edid
        }
    }

    /// Decoding the bytes of a response gives the response back, every
    /// field as it was, whatever follows the bytes.
    pub proof fn lemma_round_trip(self)
        requires
            self.edid.len() == 1024,
        ensures
            self.wire().len() == 1056,
            RespEdid::parse(self.wire()) == Ok::<RespEdidView, DecodeError>(self),
            forall|rest: Seq<u8>| #[trigger]
                RespEdid::parse(self.wire() + rest) == Ok::<RespEdidView, DecodeError>(self),
    {
        let w = self.wire();
        self.hdr.lemma_round_trip();
        lemma_u32_round_trip(self.size);
        lemma_u32_round_trip(self.padding);
        assert forall|rest: Seq<u8>| #[trigger]
            RespEdid::parse(w + rest) == Ok::<RespEdidView, DecodeError>(self) by {
            let all = w + rest;
            CtrlHeader::lemma_window(all, 0);
            assert(all.subrange(0, 24) =~= self.hdr.wire());
            assert(all.subrange(24, 28) =~= u32_bytes(self.size));
            lemma_u32_at_window(all, 24, 4, 0);
            assert(all.subrange(28, 32) =~= u32_bytes(self.padding));
            lemma_u32_at_window(all, 28, 4, 0);
            assert(all.subrange(32, 1056) =~= self.edid);
        }
        assert(w + Seq::<u8>::empty() =~= w);
    }
}

impl RespEdid {
    /// Number of bytes that the message takes on the wire.
    pub const SIZE: usize = 1056;

    /// What decoding `bytes` gives: the response at their start, or the
    /// reason why there is none.
    pub open spec fn parse(bytes: Seq<u8>) -> Result<RespEdidView, DecodeError> {
        if bytes.len() < 1056 {
            Err(DecodeError::Truncated)
        } else {
            match CtrlHeader::parse_at(bytes, 0) {
                Err(e) => Err(e),
                Ok(hdr) => Ok(
                    RespEdidView {
                        hdr,
                        size: u32_at(bytes, 24),
                        padding: u32_at(bytes, 28),
                        edid: bytes.subrange(32, 1056),
                    },
                ),
            }
        }
    }

    /// A response with the given fields and zeroed padding.
    pub fn new(hdr: CtrlHeader, size: u32, edid: [u8; EDID_SIZE]) -> (message: RespEdid)
        ensures
            message == (RespEdid { hdr, size, padding: 0, edid }),
    {
        RespEdid { hdr, size, padding: 0, edid }
    }

    /// The blob: the first `size` bytes of the buffer, or the whole buffer
    /// where `size` exceeds it.
    pub fn valid_edid(&self) -> (blob: Vec<u8>)
        ensures
            blob@ == self@.valid_edid(),
    {
        let n: usize = if self.size as usize <= EDID_SIZE {
            self.size as usize
        } else {
            EDID_SIZE
        };
        let mut blob: Vec<u8> = Vec::new();
        let mut i: usize = 0;
        while i < n
            invariant
                i <= n <= EDID_SIZE,
                blob@ == self.edid@.take(i as int),
            decreases n - i,
        {
            blob.push(self.edid[i]);
            assert(blob@ =~= self.edid@.take(i + 1));
            i += 1;
        }
        assert(self.edid@.take(1024) =~= self.edid@);
        blob
    }

    /// Appends the bytes of the message to `out`.
    pub fn encode_into(&self, out: &mut Vec<u8>)
        ensures
            final(out)@ == old(out)@ + self@.wire(),
    {
        let ghost before = out@;
        self.hdr.encode_into(out);
        put_u32(out, self.size);
        put_u32(out, self.padding);
        let ghost head = out@;
        let mut i: usize = 0;
        while i < EDID_SIZE
            invariant
                i <= EDID_SIZE,
                out@ == head + self.edid@.take(i as int),
            decreases EDID_SIZE - i,
        {
            out.push(self.edid[i]);
            assert(out@ =~= head + self.edid@.take(i + 1));
            i += 1;
        }
        assert(self.edid@.take(1024) =~= self.edid@);
        assert(out@ =~= before + self@.wire());
    }

    /// The bytes of the message.
    pub fn encode(&self) -> (bytes: Vec<u8>)
        ensures
            bytes@ == self@.wire(),
            bytes@.len() == 1056,
    {
        let mut bytes: Vec<u8> = Vec::new();
        self.encode_into(&mut bytes);
        proof {
            self@.lemma_round_trip();
        }
        assert(bytes@ =~= self@.wire());
        bytes
    }

    /// Reads the response at the start of `bytes`. Fails with `Truncated`
    /// exactly when fewer than 1056 bytes are given; bytes after the message
    /// are not looked at.
    pub fn decode(bytes: &[u8]) -> (message: Result<RespEdid, DecodeError>)
        ensures
            match message {
                Ok(m) => Self::parse(bytes@) == Ok::<RespEdidView, DecodeError>(m@),
                Err(e) => Self::parse(bytes@) == Err::<RespEdidView, DecodeError>(e),
            },
    {
        if bytes.len() < 1056 {
            return Err(DecodeError::Truncated);
        }
        let hdr = match CtrlHeader::decode_at(bytes, 0) {
            Ok(hdr) => hdr,
            Err(e) => return Err(e),
        };
        let size: u32 = get_u32(bytes, 24);
        let padding: u32 = get_u32(bytes, 28);
        let mut edid: [u8; EDID_SIZE] = [0u8; EDID_SIZE];
        let mut i: usize = 0;
        while i < EDID_SIZE
            invariant
                i <= EDID_SIZE,
                bytes.len() >= 1056,
                forall|j: int| 0 <= j < i ==> #[trigger] edid@[j] == bytes@[32 + j],
            decreases EDID_SIZE - i,
        {
            edid[i] = bytes[32 + i];
            i += 1;
        }
        assert(edid@ =~= bytes@.subrange(32, 1056));
        Ok(RespEdid { hdr, size, padding, edid })
    }
}

} // verus!
