//! The table of operational devices: eight slots, one for each window of the
//! memory-mapped region, found by the address of the window.

use vstd::prelude::*;

verus! {

/// Address of the first device window on the platform this layer was written
/// for.
pub const MMIO_VIRTIO_START: usize = 0x1000_1000;

/// Number of device windows in the region, and of slots in the registry.
pub const MAX_DEVICES: usize = 8;

/// Number of bytes from the start of one device window to the next.
pub const WINDOW_BYTES: usize = 4096;

/// The slot that belongs to the window at `addr`, in a region that starts
/// at `region_base`: the number of whole windows between the two. There is
/// none for an address below the region or beyond its eight windows.
pub open spec fn slot_of(region_base: usize, addr: usize) -> Option<usize> {
    if region_base <= addr && (addr - region_base) / 4096 < 8 {
        Some(((addr - region_base) / 4096) as usize)
    } else {
        None
    }
}

/// Whether `addr` is where one of the eight windows of the region starts.
pub open spec fn is_window_base(region_base: usize, addr: usize) -> bool {
    &&& region_base <= addr
    &&& (addr - region_base) % 4096 == 0
    &&& (addr - region_base) / 4096 < 8
}

/// The slot that belongs to the window at `addr`, or `None` for an address
/// that lies in none of the eight windows.
pub fn device_index(region_base: usize, addr: usize) -> (index: Option<usize>)
    ensures
        index == slot_of(region_base, addr),
        index matches Some(i) ==> i < MAX_DEVICES,
{
    if addr < region_base {
        return None;
    }
    let distance: usize = addr - region_base;
    let index: usize = distance >> 12;
    assert(distance >> 12 == distance / 4096) by (bit_vector);
    if index < MAX_DEVICES {
        Some(index)
    } else {
        None
    }
}

/// Every window base of the region has a slot, and two different window
/// bases never share one.
pub proof fn lemma_slot_injective(region_base: usize, a: usize, b: usize)
    requires
        is_window_base(region_base, a),
        is_window_base(region_base, b),
    ensures
        slot_of(region_base, a) is Some,
        slot_of(region_base, b) is Some,
        slot_of(region_base, a) == slot_of(region_base, b) <==> a == b,
{
}

/// Window number `index` of the region starts at an address whose slot is
/// `index`.
pub proof fn lemma_slot_of_window(region_base: usize, index: usize)
    requires
        index < 8,
        region_base + 4096 * index <= usize::MAX,
    ensures
        is_window_base(region_base, (region_base + 4096 * index) as usize),
        slot_of(region_base, (region_base + 4096 * index) as usize) == Some(index),
{
}

/// An operational device: its command ring and its register window.
#[derive(Debug, PartialEq, Eq)]
pub struct Device {
    /// Address of the ring memory, which the device handle owns.
    pub queue: usize,
    /// Address of the device's register window, which it does not own.
    pub dev: usize,
    /// Next free position in the ring.
    pub idx: u16,
    /// Position in the used ring up to which responses have been seen.
    pub ack_used_idx: u16,
}

impl Device {
    /// A handle that is attached to nothing: both addresses null, both
    /// cursors at the start.
    pub fn new() -> (device: Device)
        ensures
            device == (Device { queue: 0, dev: 0, idx: 0, ack_used_idx: 0 }),
    {
        Device { queue: 0, dev: 0, idx: 0, ack_used_idx: 0 }
    }

    /// A handle for the device at `dev` with its ring at `queue`, both
    /// cursors at the start.
    pub fn attached(queue: usize, dev: usize) -> (device: Device)
        ensures
            device == (Device { queue, dev, idx: 0, ack_used_idx: 0 }),
    {
        Device { queue, dev, idx: 0, ack_used_idx: 0 }
    }
}

/// The devices that have been brought up, by slot.
pub struct DeviceRegistry {
    slots: [Option<Device>; MAX_DEVICES],
}

impl View for DeviceRegistry {
    type V = Seq<Option<Device>>;

    closed spec fn view(&self) -> Seq<Option<Device>> {
        self.slots@
    }
}

impl DeviceRegistry {
    /// A registry with every slot empty.
    pub fn new() -> (registry: DeviceRegistry)
        ensures
            registry@ == Seq::new(8, |i: int| None::<Device>),
    {
        let registry = DeviceRegistry { slots: [None, None, None, None, None, None, None, None] };
        assert(registry@ =~= Seq::new(8, |i: int| None::<Device>));
        registry
    }

    /// The registry has eight slots, always.
    pub proof fn lemma_len(&self)
        ensures
            self@.len() == 8,
    {
    }

    /// Puts `device` into slot `index`, in place of whatever the slot held.
    /// No other slot changes.
    pub fn register(&mut self, index: usize, device: Device)
        requires
            index < MAX_DEVICES,
        ensures
            final(self)@ == old(self)@.update(index as int, Some(device)),
    {
        self.slots[index] = Some(device);
    }

    /// Puts `device` into the slot of the window at `addr` and returns the
    /// slot. For an address that lies in none of the eight windows the
    /// registry stays as it is and `None` is returned.
    pub fn register_at(&mut self, region_base: usize, addr: usize, device: Device) -> (slot:
        Option<usize>)
        ensures
            slot == slot_of(region_base, addr),
            final(self)@ == (match slot {
                Some(index) => old(self)@.update(index as int, Some(device)),
                None => old(self)@,
            }),
    {
        match device_index(region_base, addr) {
            Some(index) => {
                self.register(index, device);
                Some(index)
            },
            None => None,
        }
    }

    /// The device of the window at `addr`, if its slot holds one. An
    /// address that lies in none of the eight windows has none.
    pub fn lookup_at(&self, region_base: usize, addr: usize) -> (device: Option<&Device>)
        ensures
            device == (match slot_of(region_base, addr) {
                Some(index) => match self@[index as int] {
                    Some(d) => Some(&d),
                    None => None,
                },
                None => None,
            }),
    {
        match device_index(region_base, addr) {
            Some(index) => self.lookup(index),
            None => None,
        }
    }

    /// The device in slot `index`, if the slot holds one. An index beyond
    /// the last slot holds none.
    pub fn lookup(&self, index: usize) -> (device: Option<&Device>)
        ensures
            index < MAX_DEVICES ==> device == (match self@[index as int] {
                Some(d) => Some(&d),
                None => None,
            }),
            index >= MAX_DEVICES ==> device is None,
    {
        if index < MAX_DEVICES {
            self.slots[index].as_ref()
        } else {
            None
        }
    }
}

} // verus!
