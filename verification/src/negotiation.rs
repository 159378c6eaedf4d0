//! The handshake that brings a device from reset to live.
//!
//! The handshake is a state machine. It never touches the device: it names
//! the next access, the caller performs it and reports what came of it, and
//! the machine names the next one. A run is a fixed sequence of register
//! writes with three reads and one allocation in between; the reads decide
//! whether the run ends with the device live and in the registry, or failed.

use crate::queue::{frame_number, page_count, pages_needed};
use crate::registry::{device_index, slot_of, Device, DeviceRegistry};
use crate::regs::{
    status_acknowledged, status_driver_seen, status_features_offered, status_live, MmioOffsets,
    StatusField,
};
use vstd::prelude::*;

verus! {

/// What the platform fixes: where the device windows lie, how large a page
/// is, and the ring that the transport uses.
#[derive(Clone, Copy, Debug, PartialEq, Eq)]
pub struct Platform {
    /// Address of the first device window.
    pub region_base: usize,
    /// Size of a page in bytes.
    pub page_size: u32,
    /// Number of entries of the ring. It is fixed: the handshake does not
    /// settle for a smaller ring.
    pub ring_size: u32,
    /// Size of the ring structure in bytes.
    pub ring_bytes: usize,
}

impl Platform {
    /// A page has at least one byte.
    pub open spec fn wf(self) -> bool {
        self.page_size > 0
    }

    /// Whether the values describe a platform: a page has at least one byte.
    pub fn is_valid(&self) -> (valid: bool)
        ensures
            valid == self.wf(),
    {
        self.page_size > 0
    }

    /// Number of pages that the ring takes.
    pub open spec fn ring_pages(self) -> int {
        pages_needed(self.ring_bytes as int, self.page_size as int)
    }

    /// Frame number of the page at `addr`.
    pub open spec fn frame_of(self, addr: usize) -> int {
        addr as int / self.page_size as int
    }
}

/// The stages of the handshake, in the order in which a run goes through
/// them. `Failed` is entered from `FeaturesConfirmed` or `QueueConfigured`
/// only, and nothing follows it.
#[derive(Clone, Copy, Debug, PartialEq, Eq, Structural)]
pub enum State {
    Reset,
    Acknowledged,
    DriverSeen,
    FeaturesNegotiated,
    FeaturesConfirmed,
    QueueConfigured,
    Live,
    Failed,
}

/// The access that the handshake waits for, or its end.
#[derive(Clone, Copy, Debug, PartialEq, Eq, Structural)]
pub enum Step {
    WriteReset,
    WriteAcknowledge,
    WriteDriver,
    ReadHostFeatures,
    WriteGuestFeatures,
    WriteFeaturesOk,
    ReadStatus,
    SelectQueue,
    ReadQueueNumMax,
    WriteQueueNum,
    AllocateRing,
    WriteGuestPageSize,
    WriteQueuePfn,
    WriteDriverOk,
    Live,
    WriteFailed,
    Failed,
}

/// Why a handshake failed.
#[derive(Clone, Copy, Debug, PartialEq, Eq, Structural)]
pub enum Failure {
    /// The device cleared the features bit: it rejects the features that
    /// the driver accepted.
    FeaturesRejected,
    /// The device's largest ring is smaller than the ring of the platform.
    QueueTooSmall,
}

/// What the caller is to do next.
#[derive(Clone, Copy, Debug, PartialEq, Eq)]
pub enum Action {
    /// Write `value` to `register`, then report `Event::Written`.
    Write { register: MmioOffsets, value: u32 },
    /// Read `register`, then report the value in `Event::Value`.
    Read { register: MmioOffsets },
    /// Obtain `pages` contiguous zeroed pages, then report their address in
    /// `Event::Allocated`.
    AllocatePages { pages: usize },
    /// Nothing: the handshake is over. `Ok` holds the registry slot that
    /// the device was put into.
    Finished { outcome: Result<usize, Failure> },
}

/// What came of the access that the handshake asked for.
#[derive(Clone, Copy, Debug, PartialEq, Eq, Structural)]
pub enum Event {
    /// The write was made.
    Written,
    /// The read gave this value.
    Value(u32),
    /// The pages start at this address.
    Allocated(usize),
}

impl Step {
    /// The stage that the step belongs to.
    pub open spec fn spec_state(self) -> State {
        match self {
            Step::WriteReset => State::Reset,
            Step::WriteAcknowledge => State::Acknowledged,
            Step::WriteDriver => State::DriverSeen,
            Step::ReadHostFeatures | Step::WriteGuestFeatures | Step::WriteFeaturesOk => {
                State::FeaturesNegotiated
            },
            Step::ReadStatus => State::FeaturesConfirmed,
            Step::SelectQueue
            | Step::ReadQueueNumMax
            | Step::WriteQueueNum
            | Step::AllocateRing
            | Step::WriteGuestPageSize
            | Step::WriteQueuePfn => State::QueueConfigured,
            Step::WriteDriverOk | Step::Live => State::Live,
            Step::WriteFailed | Step::Failed => State::Failed,
        }
    }

    /// The stage that the step belongs to.
    #[verifier::when_used_as_spec(spec_state)]
    pub fn state(self) -> (state: State)
        ensures
            state == self.spec_state(),
    {
        match self {
            Step::WriteReset => State::Reset,
            Step::WriteAcknowledge => State::Acknowledged,
            Step::WriteDriver => State::DriverSeen,
            Step::ReadHostFeatures | Step::WriteGuestFeatures | Step::WriteFeaturesOk => {
                State::FeaturesNegotiated
            },
            Step::ReadStatus => State::FeaturesConfirmed,
            Step::SelectQueue
            | Step::ReadQueueNumMax
            | Step::WriteQueueNum
            | Step::AllocateRing
            | Step::WriteGuestPageSize
            | Step::WriteQueuePfn => State::QueueConfigured,
            Step::WriteDriverOk | Step::Live => State::Live,
            Step::WriteFailed | Step::Failed => State::Failed,
        }
    }

    /// The ring has been allocated when the handshake is at this step.
    pub open spec fn ring_allocated(self) -> bool {
        self is WriteGuestPageSize || self is WriteQueuePfn || self is WriteDriverOk
            || self is Live
    }

    /// The device's largest ring has been found large enough when the
    /// handshake is at this step.
    pub open spec fn queue_accepted(self) -> bool {
        self is WriteQueueNum || self is AllocateRing || self.ring_allocated()
    }
}

impl State {
    /// Position of the stage in the order of a run; `Failed` has none and
    /// is given the last.
    pub open spec fn position(self) -> int {
        match self {
            State::Reset => 0,
            State::Acknowledged => 1,
            State::DriverSeen => 2,
            State::FeaturesNegotiated => 3,
            State::FeaturesConfirmed => 4,
            State::QueueConfigured => 5,
            State::Live => 6,
            State::Failed => 7,
        }
    }
}

/// The handshake with one device.
#[derive(Clone, Copy, Debug, PartialEq, Eq)]
pub struct Negotiation {
    /// The platform that the device lives on.
    pub platform: Platform,
    /// Address of the device's register window.
    pub dev: usize,
    /// The registry slot that belongs to that address.
    pub index: usize,
    /// The access that the handshake waits for.
    pub step: Step,
    /// The features that the device offered; zero until they were read.
    pub host_features: u32,
    /// The device's largest ring; zero until it was read.
    pub queue_num_max: u32,
    /// Address of the ring; `None` until it was allocated.
    pub queue: Option<usize>,
    /// Why the handshake failed; `None` unless it did.
    pub failure: Option<Failure>,
}

impl Negotiation {
    /// What holds of a handshake at every point of a run.
    pub open spec fn wf(self) -> bool {
        &&& self.platform.wf()
        &&& slot_of(self.platform.region_base, self.dev) == Some(self.index)
        &&& self.failure is Some <==> self.step.spec_state() == State::Failed
        &&& self.queue is Some <==> self.step.ring_allocated()
        &&& self.queue matches Some(addr) ==> self.platform.frame_of(addr) <= u32::MAX
        &&& self.step.queue_accepted() ==> self.platform.ring_size <= self.queue_num_max
    }

    /// The handshake before its first access.
    pub open spec fn spec_begin(platform: Platform, dev: usize) -> Option<Negotiation> {
        match slot_of(platform.region_base, dev) {
            Some(index) => Some(
                Negotiation {
                    platform,
                    dev,
                    index,
                    step: Step::WriteReset,
                    host_features: 0,
                    queue_num_max: 0,
                    queue: None,
                    failure: None,
                },
            ),
            None => None,
        }
    }

    /// The handle of the device once its ring is allocated.
    pub open spec fn device(self) -> Device {
        Device { queue: self.queue->0, dev: self.dev, idx: 0, ack_used_idx: 0 }
    }

    /// The access that the handshake waits for.
    pub open spec fn spec_pending(&self) -> Action {
        match self.step {
            Step::WriteReset => Action::Write { register: MmioOffsets::Status, value: 0 },
            Step::WriteAcknowledge => Action::Write {
                register: MmioOffsets::Status,
                value: status_acknowledged(),
            },
            Step::WriteDriver => Action::Write {
                register: MmioOffsets::Status,
                value: status_driver_seen(),
            },
            Step::ReadHostFeatures => Action::Read { register: MmioOffsets::HostFeatures },
            Step::WriteGuestFeatures => Action::Write {
                register: MmioOffsets::GuestFeatures,
                value: self.host_features,
            },
            Step::WriteFeaturesOk => Action::Write {
                register: MmioOffsets::Status,
                value: status_features_offered(),
            },
            Step::ReadStatus => Action::Read { register: MmioOffsets::Status },
            Step::SelectQueue => Action::Write { register: MmioOffsets::QueueSel, value: 0 },
            Step::ReadQueueNumMax => Action::Read { register: MmioOffsets::QueueNumMax },
            Step::WriteQueueNum => Action::Write {
                register: MmioOffsets::QueueNum,
                value: self.platform.ring_size,
            },
            Step::AllocateRing => Action::AllocatePages {
                pages: self.platform.ring_pages() as usize,
            },
            Step::WriteGuestPageSize => Action::Write {
                register: MmioOffsets::GuestPageSize,
                value: self.platform.page_size,
            },
            Step::WriteQueuePfn => Action::Write {
                register: MmioOffsets::QueuePfn,
                value: self.platform.frame_of(self.queue->0) as u32,
            },
            Step::WriteDriverOk => Action::Write {
                register: MmioOffsets::Status,
                value: status_live(),
            },
            Step::Live => Action::Finished { outcome: Ok(self.index) },
            Step::WriteFailed => Action::Write {
                register: MmioOffsets::Status,
                value: StatusField::Failed.spec_val32(),
            },
            Step::Failed => Action::Finished { outcome: Err(self.failure->0) },
        }
    }

    /// The handshake after `event`. An event that does not answer the
    /// pending access leaves the handshake as it is; so does an allocation
    /// whose frame number does not fit the 32-bit register.
    pub open spec fn next(self, event: Event) -> Negotiation {
        match (self.step, event) {
            (Step::WriteReset, Event::Written) => Negotiation {
                step: Step::WriteAcknowledge,
                ..self
            },
            (Step::WriteAcknowledge, Event::Written) => Negotiation {
                step: Step::WriteDriver,
                ..self
            },
            (Step::WriteDriver, Event::Written) => Negotiation {
                step: Step::ReadHostFeatures,
                ..self
            },
            (Step::ReadHostFeatures, Event::Value(features)) => Negotiation {
                step: Step::WriteGuestFeatures,
                host_features: features,
                ..self
            },
            (Step::WriteGuestFeatures, Event::Written) => Negotiation {
                step: Step::WriteFeaturesOk,
                ..self
            },
            (Step::WriteFeaturesOk, Event::Written) => Negotiation {
                step: Step::ReadStatus,
                ..self
            },
            (Step::ReadStatus, Event::Value(status)) => if StatusField::FeaturesOk.spec_test(
                status,
            ) {
                Negotiation { step: Step::SelectQueue, ..self }
            } else {
                Negotiation {
                    step: Step::WriteFailed,
                    failure: Some(Failure::FeaturesRejected),
                    ..self
                }
            },
            (Step::SelectQueue, Event::Written) => Negotiation {
                step: Step::ReadQueueNumMax,
                ..self
            },
            (Step::ReadQueueNumMax, Event::Value(max)) => if self.platform.ring_size > max {
                Negotiation {
                    step: Step::WriteFailed,
                    queue_num_max: max,
                    failure: Some(Failure::QueueTooSmall),
                    ..self
                }
            } else {
                Negotiation { step: Step::WriteQueueNum, queue_num_max: max, ..self }
            },
            (Step::WriteQueueNum, Event::Written) => Negotiation {
                step: Step::AllocateRing,
                ..self
            },
            (Step::AllocateRing, Event::Allocated(addr)) => if self.platform.frame_of(addr)
                <= u32::MAX {
                Negotiation { step: Step::WriteGuestPageSize, queue: Some(addr), ..self }
            } else {
                self
            },
            (Step::WriteGuestPageSize, Event::Written) => Negotiation {
                step: Step::WriteQueuePfn,
                ..self
            },
            (Step::WriteQueuePfn, Event::Written) => Negotiation {
                step: Step::WriteDriverOk,
                ..self
            },
            (Step::WriteDriverOk, Event::Written) => Negotiation { step: Step::Live, ..self },
            (Step::WriteFailed, Event::Written) => Negotiation { step: Step::Failed, ..self },
            _ => self,
        }
    }

    /// Whether `event` is the one that makes the device live.
    pub open spec fn goes_live(self, event: Event) -> bool {
        self.step is WriteDriverOk && event is Written
    }

    /// The registry after `event`: the device is put into its slot when the
    /// event makes it live, and nothing changes otherwise.
    pub open spec fn registry_after(self, event: Event, slots: Seq<Option<Device>>) -> Seq<
        Option<Device>,
    > {
        if self.goes_live(event) {
            slots.update(self.index as int, Some(self.device()))
        } else {
            slots
        }
    }

    /// Starts the handshake with the device whose window is at `dev`. There
    /// is none for an address outside the eight windows of the region.
    pub fn begin(platform: Platform, dev: usize) -> (start: Option<Negotiation>)
        requires
            platform.wf(),
        ensures
            start == Self::spec_begin(platform, dev),
            start matches Some(n) ==> n.wf(),
    {
        match device_index(platform.region_base, dev) {
            Some(index) => Some(
                Negotiation {
                    platform,
                    dev,
                    index,
                    step: Step::WriteReset,
                    host_features: 0,
                    queue_num_max: 0,
                    queue: None,
                    failure: None,
                },
            ),
            None => None,
        }
    }

    /// The stage that the handshake is in.
    pub fn state(&self) -> (state: State)
        ensures
            state == self.step.spec_state(),
    {
        self.step.state()
    }

    /// The access that the handshake waits for.
    #[verifier::when_used_as_spec(spec_pending)]
    pub fn pending(&self) -> (action: Action)
        requires
            self.wf(),
        ensures
            action == self.spec_pending(),
    {
        match self.step {
            Step::WriteReset => Action::Write { register: MmioOffsets::Status, value: 0 },
            Step::WriteAcknowledge => Action::Write {
                register: MmioOffsets::Status,
                value: StatusField::Acknowledge.val32(),
            },
            Step::WriteDriver => Action::Write {
                register: MmioOffsets::Status,
                value: StatusField::Acknowledge.val32() | StatusField::DriverOk.val32(),
            },
            Step::ReadHostFeatures => Action::Read { register: MmioOffsets::HostFeatures },
            Step::WriteGuestFeatures => Action::Write {
                register: MmioOffsets::GuestFeatures,
                value: self.host_features,
            },
            Step::WriteFeaturesOk => Action::Write {
                register: MmioOffsets::Status,
                value: StatusField::Acknowledge.val32() | StatusField::DriverOk.val32()
                    | StatusField::FeaturesOk.val32(),
            },
            Step::ReadStatus => Action::Read { register: MmioOffsets::Status },
            Step::SelectQueue => Action::Write { register: MmioOffsets::QueueSel, value: 0 },
            Step::ReadQueueNumMax => Action::Read { register: MmioOffsets::QueueNumMax },
            Step::WriteQueueNum => Action::Write {
                register: MmioOffsets::QueueNum,
                value: self.platform.ring_size,
            },
            Step::AllocateRing => Action::AllocatePages {
                pages: page_count(self.platform.ring_bytes, self.platform.page_size as usize),
            },
            Step::WriteGuestPageSize => Action::Write {
                register: MmioOffsets::GuestPageSize,
                value: self.platform.page_size,
            },
            Step::WriteQueuePfn => {
                let addr: usize = match self.queue {
                    Some(addr) => addr,
                    None => 0,
                };
                Action::Write {
                    register: MmioOffsets::QueuePfn,
                    value: frame_number(addr, self.platform.page_size as usize) as u32,
                }
            },
            Step::WriteDriverOk => Action::Write {
                register: MmioOffsets::Status,
                value: StatusField::Acknowledge.val32() | StatusField::DriverOk.val32()
                    | StatusField::FeaturesOk.val32() | StatusField::DriverOk.val32(),
            },
            Step::Live => Action::Finished { outcome: Ok(self.index) },
            Step::WriteFailed => Action::Write {
                register: MmioOffsets::Status,
                value: StatusField::Failed.val32(),
            },
            Step::Failed => {
                let failure = match self.failure {
                    Some(failure) => failure,
                    None => Failure::FeaturesRejected,
                };
                Action::Finished { outcome: Err(failure) }
            },
        }
    }

    /// Takes in what came of the pending access and names the next one. The
    /// event that makes the device live puts its handle into the registry;
    /// no other event changes the registry.
    pub fn step(&mut self, event: Event, registry: &mut DeviceRegistry) -> (action: Action)
        requires
            old(self).wf(),
        ensures
            *final(self) == old(self).next(event),
            final(self).wf(),
            action == final(self).spec_pending(),
            final(registry)@ == old(self).registry_after(event, old(registry)@),
    {
        match (self.step, event) {
            (Step::WriteReset, Event::Written) => {
                self.step = Step::WriteAcknowledge;
            },
            (Step::WriteAcknowledge, Event::Written) => {
                self.step = Step::WriteDriver;
            },
            (Step::WriteDriver, Event::Written) => {
                self.step = Step::ReadHostFeatures;
            },
            (Step::ReadHostFeatures, Event::Value(features)) => {
                self.host_features = features;
                self.step = Step::WriteGuestFeatures;
            },
            (Step::WriteGuestFeatures, Event::Written) => {
                self.step = Step::WriteFeaturesOk;
            },
            (Step::WriteFeaturesOk, Event::Written) => {
                self.step = Step::ReadStatus;
            },
            (Step::ReadStatus, Event::Value(status)) => {
                if StatusField::features_ok(status) {
                    self.step = Step::SelectQueue;
                } else {
                    self.failure = Some(Failure::FeaturesRejected);
                    self.step = Step::WriteFailed;
                }
            },
            (Step::SelectQueue, Event::Written) => {
                self.step = Step::ReadQueueNumMax;
            },
            (Step::ReadQueueNumMax, Event::Value(max)) => {
                self.queue_num_max = max;
                if self.platform.ring_size > max {
                    self.failure = Some(Failure::QueueTooSmall);
                    self.step = Step::WriteFailed;
                } else {
                    self.step = Step::WriteQueueNum;
                }
            },
            (Step::WriteQueueNum, Event::Written) => {
                self.step = Step::AllocateRing;
            },
            (Step::AllocateRing, Event::Allocated(addr)) => {
                if frame_number(addr, self.platform.page_size as usize) <= u32::MAX as usize {
                    self.queue = Some(addr);
                    self.step = Step::WriteGuestPageSize;
                }
            },
            (Step::WriteGuestPageSize, Event::Written) => {
                self.step = Step::WriteQueuePfn;
            },
            (Step::WriteQueuePfn, Event::Written) => {
                self.step = Step::WriteDriverOk;
            },
            (Step::WriteDriverOk, Event::Written) => {
                let addr: usize = match self.queue {
                    Some(addr) => addr,
                    None => 0,
                };
                registry.register(self.index, Device::attached(addr, self.dev));
                self.step = Step::Live;
            },
            (Step::WriteFailed, Event::Written) => {
                self.step = Step::Failed;
            },
            _ => {},
        }
        self.pending()
    }
}

} // verus!
