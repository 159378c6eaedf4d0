//! The registers of a device's memory-mapped window and the bits of its
//! status register.
//!
//! This module names registers and values; the access itself, which must be
//! volatile and in order, belongs to whoever owns the window.

use vstd::prelude::*;

verus! {

/// A 32-bit register of the device's window.
#[derive(Clone, Copy, Debug, PartialEq, Eq, Structural)]
pub enum MmioOffsets {
    HostFeatures,
    GuestFeatures,
    GuestPageSize,
    QueueSel,
    QueueNumMax,
    QueueNum,
    QueuePfn,
    Status,
}

impl MmioOffsets {
    /// Byte offset of the register from the base of the window.
    pub open spec fn spec_val(self) -> usize {
        match self {
            MmioOffsets::HostFeatures => 0x010,
            MmioOffsets::GuestFeatures => 0x020,
            MmioOffsets::GuestPageSize => 0x028,
            MmioOffsets::QueueSel => 0x030,
            MmioOffsets::QueueNumMax => 0x034,
            MmioOffsets::QueueNum => 0x038,
            MmioOffsets::QueuePfn => 0x040,
            MmioOffsets::Status => 0x070,
        }
    }

    /// Byte offset of the register from the base of the window.
    #[verifier::when_used_as_spec(spec_val)]
    pub fn val(self) -> (offset: usize)
        ensures
            offset == self.spec_val(),
    {
        match self {
            MmioOffsets::HostFeatures => 0x010,
            MmioOffsets::GuestFeatures => 0x020,
            MmioOffsets::GuestPageSize => 0x028,
            MmioOffsets::QueueSel => 0x030,
            MmioOffsets::QueueNumMax => 0x034,
            MmioOffsets::QueueNum => 0x038,
            MmioOffsets::QueuePfn => 0x040,
            MmioOffsets::Status => 0x070,
        }
    }

    /// Index of the register when the window is seen as an array of 32-bit
    /// words: a quarter of the byte offset.
    pub fn scale32(self) -> (index: usize)
        ensures
            index * 4 == self.spec_val(),
    {
        self.val() / 4
    }

    /// No two registers share an offset.
    pub proof fn lemma_val_injective(a: MmioOffsets, b: MmioOffsets)
        ensures
            a.spec_val() == b.spec_val() <==> a == b,
    {
    }
}

/// A bit of the status register.
#[derive(Clone, Copy, Debug, PartialEq, Eq, Structural)]
pub enum StatusField {
    /// The system has noticed the device.
    Acknowledge,
    /// A driver is present. The handshake writes this bit when the driver
    /// first announces itself and again when it declares the device live.
    DriverOk,
    /// The driver has settled on its features.
    FeaturesOk,
    /// The driver has given up on the device.
    Failed,
}

impl StatusField {
    /// The bit as a register value.
    pub open spec fn spec_val32(self) -> u32 {
        match self {
            StatusField::Acknowledge => 1,
            StatusField::DriverOk => 4,
            StatusField::FeaturesOk => 8,
            StatusField::Failed => 128,
        }
    }

    /// The bit as a register value.
    #[verifier::when_used_as_spec(spec_val32)]
    pub fn val32(self) -> (bit: u32)
        ensures
            bit == self.spec_val32(),
    {
        match self {
            StatusField::Acknowledge => 1,
            StatusField::DriverOk => 4,
            StatusField::FeaturesOk => 8,
            StatusField::Failed => 128,
        }
    }

    /// Whether a status value has this bit set.
    pub open spec fn spec_test(self, status: u32) -> bool {
        status & self.spec_val32() != 0
    }

    /// Whether a status value has this bit set.
    #[verifier::when_used_as_spec(spec_test)]
    pub fn test(self, status: u32) -> (set: bool)
        ensures
            set == self.spec_test(status),
    {
        status & self.val32() != 0
    }

    /// Whether a status value read back from the device still has the
    /// features bit set.
    pub fn features_ok(status: u32) -> (ok: bool)
        ensures
            ok == StatusField::FeaturesOk.spec_test(status),
    {
        StatusField::FeaturesOk.test(status)
    }

    /// Each field is a single bit, and no two fields are the same bit.
    pub proof fn lemma_single_bits(a: StatusField, b: StatusField)
        ensures
            a.spec_val32() & ((a.spec_val32() - 1) as u32) == 0,
            a.spec_val32() != 0,
            a != b ==> a.spec_val32() & b.spec_val32() == 0,
    {
        assert(1u32 & 0u32 == 0 && 4u32 & 3u32 == 0 && 8u32 & 7u32 == 0 && 128u32 & 127u32 == 0)
            by (bit_vector);
        assert(1u32 & 4u32 == 0 && 1u32 & 8u32 == 0 && 1u32 & 128u32 == 0 && 4u32 & 8u32 == 0
            && 4u32 & 128u32 == 0 && 8u32 & 128u32 == 0 && 4u32 & 1u32 == 0 && 8u32 & 1u32 == 0
            && 128u32 & 1u32 == 0 && 8u32 & 4u32 == 0 && 128u32 & 4u32 == 0 && 128u32 & 8u32
            == 0) by (bit_vector);
    }
}

/// The status after the system has noticed the device.
pub open spec fn status_acknowledged() -> u32 {
    StatusField::Acknowledge.spec_val32()
}

/// The status after the driver has announced itself.
pub open spec fn status_driver_seen() -> u32 {
    status_acknowledged() | StatusField::DriverOk.spec_val32()
}

/// The status with which the driver offers its features.
pub open spec fn status_features_offered() -> u32 {
    status_driver_seen() | StatusField::FeaturesOk.spec_val32()
}

/// The status that declares the device live.
pub open spec fn status_live() -> u32 {
    status_features_offered() | StatusField::DriverOk.spec_val32()
}

/// The status values of the handshake as numbers. Each keeps the bits of
/// the one before it.
pub proof fn lemma_status_values()
    ensures
        status_acknowledged() == 1,
        status_driver_seen() == 5,
        status_features_offered() == 13,
        status_live() == 13,
        StatusField::FeaturesOk.spec_test(status_features_offered()),
{
    assert(1u32 | 4u32 == 5 && 5u32 | 8u32 == 13 && 13u32 | 4u32 == 13 && 13u32 & 8u32 != 0)
        by (bit_vector);
}

} // verus!
