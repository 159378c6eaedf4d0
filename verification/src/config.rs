//! The device's configuration space and the feature and event bits that go
//! with it.

use crate::header::DecodeError;
use crate::wire::{get_u32, lemma_u32_at_window, lemma_u32_round_trip, put_u32, u32_at, u32_bytes};
use vstd::prelude::*;

verus! {

/// Feature bit: the device supports 3D rendering.
pub const F_VIRGL: u32 = 0;

/// Feature bit: the device can report EDID blobs.
pub const F_EDID: u32 = 1;

/// Event bit: the display configuration has changed.
pub const EVENT_DISPLAY: u32 = 1;

/// The device's configuration space.
#[derive(Clone, Copy, Debug, PartialEq, Eq)]
pub struct Config {
    /// Pending events; the driver only reads this field.
    pub events_read: u32,
    /// Writing a one clears the matching bit of `events_read`.
    pub events_clear: u32,
    /// Number of scanouts that the device supports, from 1 to 16.
    pub num_scanouts: u32,
    /// Reserved; zero in every value that this layer builds.
    pub reserved: u32,
}

impl Config {
    /// Number of bytes that the message takes on the wire.
    pub const SIZE: usize = 16;

    /// The bytes of the message: its fields in order, with nothing between them.
    pub open spec fn wire(self) -> Seq<u8> {
        u32_bytes(self.events_read)
            + u32_bytes(self.events_clear)
            + u32_bytes(self.num_scanouts)
            + u32_bytes(self.reserved)
    }

    /// Every padding field of the message is zero.
    pub open spec fn zero_padded(self) -> bool {
        self.reserved == 0
    }

    /// The message whose fields stand in `bytes` from offset `at` on.
    pub open spec fn parse_at(bytes: Seq<u8>, at: int) -> Config {
        Config {
            events_read: u32_at(bytes, at),
            events_clear: u32_at(bytes, at + 4),
            num_scanouts: u32_at(bytes, at + 8),
            reserved: u32_at(bytes, at + 12),
        }
    }

    /// What decoding `bytes` gives: the message at their start, or the
    /// reason why there is none.
    pub open spec fn parse(bytes: Seq<u8>) -> Result<Config, DecodeError> {
        if bytes.len() < 16 {
            Err(DecodeError::Truncated)
        } else {
            Ok(Self::parse_at(bytes, 0))
        }
    }

    /// A message with the given fields and zeroed padding.
    pub fn new(events_read: u32, events_clear: u32, num_scanouts: u32) -> (message: Config)
        ensures
            message == (Config { events_read, events_clear, num_scanouts, reserved: 0 }),
    {
        Config { events_read, events_clear, num_scanouts, reserved: 0 }
    }

    /// Appends the bytes of the message to `out`.
    pub fn encode_into(&self, out: &mut Vec<u8>)
        ensures
            final(out)@ == old(out)@ + self.wire(),
    {
        put_u32(out, self.events_read);
        put_u32(out, self.events_clear);
        put_u32(out, self.num_scanouts);
        put_u32(out, self.reserved);
        assert(out@ =~= old(out)@ + self.wire());
    }

    /// The bytes of the message.
    pub fn encode(&self) -> (bytes: Vec<u8>)
        ensures
            bytes@ == self.wire(),
            bytes@.len() == 16,
    {
        let mut bytes: Vec<u8> = Vec::new();
        self.encode_into(&mut bytes);
        proof {
            self.lemma_round_trip();
        }
        assert(bytes@ =~= self.wire());
        bytes
    }

    /// Reads the message that stands in `bytes` from offset `at` on.
    pub fn decode_at(bytes: &[u8], at: usize) -> (message: Config)
        requires
            at + 16 <= bytes.len(),
        ensures
            message == Self::parse_at(bytes@, at as int),
    {
        let events_read: u32 = get_u32(bytes, at);
        let events_clear: u32 = get_u32(bytes, at + 4);
        let num_scanouts: u32 = get_u32(bytes, at + 8);
        let reserved: u32 = get_u32(bytes, at + 12);
        Config { events_read, events_clear, num_scanouts, reserved }
    }

    /// Reads the message at the start of `bytes`. Fails with `Truncated`
    /// exactly when fewer than 16 bytes are given; bytes after the message
    /// are not looked at.
    pub fn decode(bytes: &[u8]) -> (message: Result<Config, DecodeError>)
        ensures
            message == Self::parse(bytes@),
    {
        if bytes.len() < 16 {
            return Err(DecodeError::Truncated);
        }
        Ok(Self::decode_at(bytes, 0))
    }

    /// Reading at an offset looks at the 16 bytes from that offset on and at
    /// no others.
    pub proof fn lemma_window(bytes: Seq<u8>, at: int)
        requires
            0 <= at,
            at + 16 <= bytes.len(),
        ensures
            Self::parse_at(bytes, at) == Self::parse_at(bytes.subrange(at, at + 16), 0),
    {
        lemma_u32_at_window(bytes, at, 16, 0);
        lemma_u32_at_window(bytes, at, 16, 4);
        lemma_u32_at_window(bytes, at, 16, 8);
        lemma_u32_at_window(bytes, at, 16, 12);
    }

    /// Decoding the bytes of a message gives the message back, every field
    /// as it was, whatever follows the bytes.
    pub proof fn lemma_round_trip(self)
        ensures
            self.wire().len() == 16,
            Self::parse_at(self.wire(), 0) == self,
            Self::parse(self.wire()) == Ok::<Config, DecodeError>(self),
            forall|rest: Seq<u8>| #[trigger]
                Self::parse(self.wire() + rest) == Ok::<Config, DecodeError>(self),
    {
        let w = self.wire();
        lemma_u32_round_trip(self.events_read);
        lemma_u32_round_trip(self.events_clear);
        lemma_u32_round_trip(self.num_scanouts);
        lemma_u32_round_trip(self.reserved);
        assert(w.len() == 16);
        assert(w.subrange(0, 4) =~= u32_bytes(self.events_read));
        lemma_u32_at_window(w, 0, 4, 0);
        assert(w.subrange(4, 8) =~= u32_bytes(self.events_clear));
        lemma_u32_at_window(w, 4, 4, 0);
        assert(w.subrange(8, 12) =~= u32_bytes(self.num_scanouts));
        lemma_u32_at_window(w, 8, 4, 0);
        assert(w.subrange(12, 16) =~= u32_bytes(self.reserved));
        lemma_u32_at_window(w, 12, 4, 0);
        assert(Self::parse_at(w, 0) == self);
        assert forall|rest: Seq<u8>| #[trigger]
            Self::parse(w + rest) == Ok::<Config, DecodeError>(self) by {
            Self::lemma_window(w + rest, 0);
            Self::lemma_window(w, 0);
            assert((w + rest).subrange(0, 16) =~= w.subrange(0, 16));
        }
    }
}
} // verus!
