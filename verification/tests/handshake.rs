use virtio_gpu::{
    device_index, frame_number, page_count, Action, Device, DeviceRegistry, Event, Failure,
    MmioOffsets, Negotiation, Platform, State, StatusField, Step, MAX_DEVICES, MMIO_VIRTIO_START,
    WINDOW_BYTES,
};

const PAGE: u32 = 4096;

fn platform(ring_size: u32) -> Platform {
    Platform { region_base: MMIO_VIRTIO_START, page_size: PAGE, ring_size, ring_bytes: 5128 }
}

/// A device that answers as told, and remembers what was written to it.
struct Model {
    host_features: u32,
    queue_num_max: u32,
    keeps_features: bool,
    status: u32,
    next_ring: usize,
    writes: Vec<(MmioOffsets, u32)>,
    reads: Vec<MmioOffsets>,
    allocations: Vec<usize>,
}

impl Model {
    fn new(host_features: u32, queue_num_max: u32, keeps_features: bool) -> Model {
        Model {
            host_features,
            queue_num_max,
            keeps_features,
            status: 0xffff_ffff,
            next_ring: 0x8040_3000,
            writes: Vec::new(),
            reads: Vec::new(),
            allocations: Vec::new(),
        }
    }

    fn written(&self, register: MmioOffsets) -> Vec<u32> {
        self.writes.iter().filter(|(r, _)| *r == register).map(|(_, v)| *v).collect()
    }

    fn perform(&mut self, action: Action) -> Event {
        match action {
            Action::Write { register, value } => {
                self.writes.push((register, value));
                if register == MmioOffsets::Status {
                    self.status = value;
                    if !self.keeps_features {
                        self.status &= !StatusField::FeaturesOk.val32();
                    }
                }
                Event::Written
            }
            Action::Read { register } => {
                self.reads.push(register);
                Event::Value(match register {
                    MmioOffsets::HostFeatures => self.host_features,
                    MmioOffsets::QueueNumMax => self.queue_num_max,
                    MmioOffsets::Status => self.status,
                    _ => 0,
                })
            }
            Action::AllocatePages { pages } => {
                self.allocations.push(pages);
                Event::Allocated(self.next_ring)
            }
            Action::Finished { .. } => unreachable!(),
        }
    }
}

/// Runs a handshake to its end and returns the stages it went through.
fn drive(
    negotiation: &mut Negotiation,
    model: &mut Model,
    registry: &mut DeviceRegistry,
) -> (Result<usize, Failure>, Vec<State>) {
    let mut states = vec![negotiation.state()];
    let mut action = negotiation.pending();
    for _ in 0..100 {
        if let Action::Finished { outcome } = action {
            return (outcome, states);
        }
        let event = model.perform(action);
        action = negotiation.step(event, registry);
        if *states.last().unwrap() != negotiation.state() {
            states.push(negotiation.state());
        }
    }
    panic!("the handshake did not end");
}

fn window(index: usize) -> usize {
    MMIO_VIRTIO_START + index * WINDOW_BYTES
}

#[test]
fn accepted_device_goes_live_and_is_registered() {
    let mut registry = DeviceRegistry::new();
    let mut model = Model::new(0x5, 256, true);
    let mut negotiation = Negotiation::begin(platform(256), window(3)).unwrap();
    assert_eq!(negotiation.index, 3);
    let (outcome, states) = drive(&mut negotiation, &mut model, &mut registry);
    assert_eq!(outcome, Ok(3));
    assert_eq!(
        states,
        vec![
            State::Reset,
            State::Acknowledged,
            State::DriverSeen,
            State::FeaturesNegotiated,
            State::FeaturesConfirmed,
            State::QueueConfigured,
            State::Live,
        ]
    );
    assert_eq!(negotiation.step, Step::Live);
    assert_eq!(model.written(MmioOffsets::GuestFeatures), vec![0x5]);
    assert_eq!(model.written(MmioOffsets::QueuePfn), vec![(0x8040_3000usize / 4096) as u32]);
    assert_eq!(model.written(MmioOffsets::QueuePfn), vec![0x80403]);
    assert_eq!(model.allocations, vec![2]);
    assert_eq!(
        registry.lookup(3),
        Some(&Device { queue: 0x8040_3000, dev: window(3), idx: 0, ack_used_idx: 0 })
    );
    for index in 0..MAX_DEVICES {
        if index != 3 {
            assert_eq!(registry.lookup(index), None);
        }
    }
}

#[test]
fn accepted_run_makes_exactly_these_accesses() {
    let mut registry = DeviceRegistry::new();
    let mut model = Model::new(0x5, 256, true);
    let mut negotiation = Negotiation::begin(platform(256), window(3)).unwrap();
    drive(&mut negotiation, &mut model, &mut registry);
    assert_eq!(
        model.writes,
        vec![
            (MmioOffsets::Status, 0),
            (MmioOffsets::Status, 1),
            (MmioOffsets::Status, 5),
            (MmioOffsets::GuestFeatures, 5),
            (MmioOffsets::Status, 13),
            (MmioOffsets::QueueSel, 0),
            (MmioOffsets::QueueNum, 256),
            (MmioOffsets::GuestPageSize, 4096),
            (MmioOffsets::QueuePfn, 0x80403),
            (MmioOffsets::Status, 13),
        ]
    );
    assert_eq!(
        model.reads,
        vec![MmioOffsets::HostFeatures, MmioOffsets::Status, MmioOffsets::QueueNumMax]
    );
}

#[test]
fn accesses_come_in_the_order_of_the_handshake() {
    let mut registry = DeviceRegistry::new();
    let mut negotiation = Negotiation::begin(platform(128), window(0)).unwrap();
    let status = MmioOffsets::Status;
    let script = [
        (Action::Write { register: status, value: 0 }, Event::Written),
        (Action::Write { register: status, value: 1 }, Event::Written),
        (Action::Write { register: status, value: 5 }, Event::Written),
        (Action::Read { register: MmioOffsets::HostFeatures }, Event::Value(0xffff_0003)),
        (Action::Write { register: MmioOffsets::GuestFeatures, value: 0xffff_0003 }, Event::Written),
        (Action::Write { register: status, value: 13 }, Event::Written),
        (Action::Read { register: status }, Event::Value(13)),
        (Action::Write { register: MmioOffsets::QueueSel, value: 0 }, Event::Written),
        (Action::Read { register: MmioOffsets::QueueNumMax }, Event::Value(128)),
        (Action::Write { register: MmioOffsets::QueueNum, value: 128 }, Event::Written),
        (Action::AllocatePages { pages: 2 }, Event::Allocated(0x1_0000)),
        (Action::Write { register: MmioOffsets::GuestPageSize, value: 4096 }, Event::Written),
        (Action::Write { register: MmioOffsets::QueuePfn, value: 16 }, Event::Written),
        (Action::Write { register: status, value: 13 }, Event::Written),
    ];
    for (expected, event) in script {
        assert_eq!(negotiation.pending(), expected);
        assert_eq!(registry.lookup(0), None);
        negotiation.step(event, &mut registry);
    }
    assert_eq!(negotiation.pending(), Action::Finished { outcome: Ok(0) });
    assert_eq!(negotiation.state(), State::Live);
    assert_eq!(registry.lookup(0), Some(&Device::attached(0x1_0000, window(0))));
}

#[test]
fn small_queue_fails_without_allocation() {
    let mut registry = DeviceRegistry::new();
    let mut model = Model::new(0x5, 64, true);
    let mut negotiation = Negotiation::begin(platform(256), window(3)).unwrap();
    let (outcome, states) = drive(&mut negotiation, &mut model, &mut registry);
    assert_eq!(outcome, Err(Failure::QueueTooSmall));
    assert_eq!(states.last(), Some(&State::Failed));
    assert_eq!(
        states,
        vec![
            State::Reset,
            State::Acknowledged,
            State::DriverSeen,
            State::FeaturesNegotiated,
            State::FeaturesConfirmed,
            State::QueueConfigured,
            State::Failed,
        ]
    );
    assert!(model.allocations.is_empty());
    assert_eq!(negotiation.queue, None);
    assert_eq!(registry.lookup(3), None);
    assert!(model.written(MmioOffsets::QueueNum).is_empty());
    assert!(model.written(MmioOffsets::QueuePfn).is_empty());
    assert_eq!(model.writes.last(), Some(&(MmioOffsets::Status, 128)));
}

#[test]
fn queue_of_exactly_the_ring_size_is_accepted() {
    let mut registry = DeviceRegistry::new();
    let mut model = Model::new(0, 256, true);
    let mut negotiation = Negotiation::begin(platform(256), window(7)).unwrap();
    assert_eq!(drive(&mut negotiation, &mut model, &mut registry).0, Ok(7));
    let mut model = Model::new(0, 255, true);
    let mut negotiation = Negotiation::begin(platform(256), window(6)).unwrap();
    assert_eq!(
        drive(&mut negotiation, &mut model, &mut registry).0,
        Err(Failure::QueueTooSmall)
    );
    assert!(registry.lookup(7).is_some());
    assert!(registry.lookup(6).is_none());
}

#[test]
fn rejected_features_fail_and_register_nothing() {
    let mut registry = DeviceRegistry::new();
    let mut model = Model::new(0x5, 256, false);
    let mut negotiation = Negotiation::begin(platform(256), window(3)).unwrap();
    let (outcome, states) = drive(&mut negotiation, &mut model, &mut registry);
    assert_eq!(outcome, Err(Failure::FeaturesRejected));
    assert_eq!(
        states,
        vec![
            State::Reset,
            State::Acknowledged,
            State::DriverSeen,
            State::FeaturesNegotiated,
            State::FeaturesConfirmed,
            State::Failed,
        ]
    );
    assert_eq!(model.writes.last(), Some(&(MmioOffsets::Status, 128)));
    assert_eq!(model.reads, vec![MmioOffsets::HostFeatures, MmioOffsets::Status]);
    assert!(model.allocations.is_empty());
    for index in 0..MAX_DEVICES {
        assert_eq!(registry.lookup(index), None);
    }
}

#[test]
fn failed_handshake_stays_failed() {
    let mut registry = DeviceRegistry::new();
    let mut model = Model::new(0x5, 1, true);
    let mut negotiation = Negotiation::begin(platform(256), window(2)).unwrap();
    drive(&mut negotiation, &mut model, &mut registry);
    let failed = negotiation;
    for event in [Event::Written, Event::Value(13), Event::Value(1000), Event::Allocated(0x1000)] {
        let action = negotiation.step(event, &mut registry);
        assert_eq!(action, Action::Finished { outcome: Err(Failure::QueueTooSmall) });
        assert_eq!(negotiation, failed);
    }
    assert_eq!(registry.lookup(2), None);
}

#[test]
fn live_handshake_registers_once_and_stays_live() {
    let mut registry = DeviceRegistry::new();
    let mut model = Model::new(0x5, 256, true);
    let mut negotiation = Negotiation::begin(platform(256), window(1)).unwrap();
    drive(&mut negotiation, &mut model, &mut registry);
    let mut other = DeviceRegistry::new();
    for event in [Event::Written, Event::Value(0), Event::Allocated(0x9000)] {
        assert_eq!(negotiation.step(event, &mut other), Action::Finished { outcome: Ok(1) });
    }
    assert_eq!(other.lookup(1), None);
    assert!(registry.lookup(1).is_some());
}

#[test]
fn events_that_do_not_answer_are_ignored() {
    let mut registry = DeviceRegistry::new();
    let mut negotiation = Negotiation::begin(platform(256), window(0)).unwrap();
    let start = negotiation;
    let first = Action::Write { register: MmioOffsets::Status, value: 0 };
    assert_eq!(negotiation.step(Event::Value(13), &mut registry), first);
    assert_eq!(negotiation.step(Event::Allocated(0x1000), &mut registry), first);
    assert_eq!(negotiation, start);
    negotiation.step(Event::Written, &mut registry);
    negotiation.step(Event::Written, &mut registry);
    let read = negotiation.step(Event::Written, &mut registry);
    assert_eq!(read, Action::Read { register: MmioOffsets::HostFeatures });
    assert_eq!(negotiation.step(Event::Written, &mut registry), read);
    assert_eq!(negotiation.state(), State::FeaturesNegotiated);
}

#[test]
fn ring_beyond_the_frame_register_is_not_taken() {
    if usize::BITS < 64 {
        return;
    }
    let mut registry = DeviceRegistry::new();
    let mut negotiation = Negotiation::begin(platform(16), window(0)).unwrap();
    for event in [
        Event::Written,
        Event::Written,
        Event::Written,
        Event::Value(0),
        Event::Written,
        Event::Written,
        Event::Value(8),
        Event::Written,
        Event::Value(16),
        Event::Written,
    ] {
        negotiation.step(event, &mut registry);
    }
    let allocate = Action::AllocatePages { pages: 2 };
    assert_eq!(negotiation.pending(), allocate);
    let too_high = (u32::MAX as usize + 1) * 4096;
    assert_eq!(negotiation.step(Event::Allocated(too_high), &mut registry), allocate);
    assert_eq!(negotiation.queue, None);
    let highest = u32::MAX as usize * 4096 + 4095;
    assert_eq!(
        negotiation.step(Event::Allocated(highest), &mut registry),
        Action::Write { register: MmioOffsets::GuestPageSize, value: 4096 }
    );
    assert_eq!(
        negotiation.step(Event::Written, &mut registry),
        Action::Write { register: MmioOffsets::QueuePfn, value: u32::MAX }
    );
}

#[test]
fn address_outside_the_region_starts_nothing() {
    assert!(Negotiation::begin(platform(256), MMIO_VIRTIO_START - 1).is_none());
    assert!(Negotiation::begin(platform(256), 0).is_none());
    assert!(Negotiation::begin(platform(256), window(8)).is_none());
    assert!(Negotiation::begin(platform(256), usize::MAX).is_none());
    assert!(Negotiation::begin(platform(256), window(7) + 4095).is_some());
}

#[test]
fn platform_validity() {
    assert!(platform(1).is_valid());
    let mut broken = platform(1);
    broken.page_size = 0;
    assert!(!broken.is_valid());
}

#[test]
fn window_addresses_map_to_distinct_slots() {
    let mut seen = Vec::new();
    for index in 0..MAX_DEVICES {
        let slot = device_index(MMIO_VIRTIO_START, window(index));
        assert_eq!(slot, Some(index));
        assert_eq!(device_index(MMIO_VIRTIO_START, window(index)), slot);
        assert!(!seen.contains(&slot));
        seen.push(slot);
    }
    assert_eq!(device_index(MMIO_VIRTIO_START, 0x1000_1000), Some(0));
    assert_eq!(device_index(MMIO_VIRTIO_START, 0x1000_2000), Some(1));
    assert_eq!(device_index(MMIO_VIRTIO_START, 0x1000_8000), Some(7));
    assert_eq!(device_index(MMIO_VIRTIO_START, 0x1000_9000), None);
    assert_eq!(device_index(MMIO_VIRTIO_START, 0x1000_0fff), None);
    assert_eq!(device_index(MMIO_VIRTIO_START, 0x1000_1fff), Some(0));
    assert_eq!(device_index(0, 0x7fff), Some(7));
    assert_eq!(device_index(0, 0x8000), None);
}

#[test]
fn pages_are_rounded_up() {
    assert_eq!(page_count(4097, 4096), 2);
    assert_eq!(page_count(4096, 4096), 1);
    assert_eq!(page_count(4095, 4096), 1);
    assert_eq!(page_count(1, 4096), 1);
    assert_eq!(page_count(0, 4096), 0);
    assert_eq!(page_count(8192, 4096), 2);
    assert_eq!(page_count(8193, 4096), 3);
    assert_eq!(page_count(5128, 4096), 2);
    assert_eq!(page_count(10, 3), 4);
    assert_eq!(page_count(usize::MAX, 1), usize::MAX);
    assert_eq!(page_count(usize::MAX, 2), usize::MAX / 2 + 1);
    assert_eq!(page_count(usize::MAX, usize::MAX), 1);
}

#[test]
fn frame_number_is_the_address_in_pages() {
    assert_eq!(frame_number(0x8040_3000, 4096), 0x80403);
    assert_eq!(frame_number(0x8040_3fff, 4096), 0x80403);
    assert_eq!(frame_number(0, 4096), 0);
    assert_eq!(frame_number(4095, 4096), 0);
    assert_eq!(frame_number(4096, 4096), 1);
}

#[test]
fn registry_keeps_one_device_per_slot() {
    let mut registry = DeviceRegistry::new();
    for index in 0..MAX_DEVICES + 4 {
        assert_eq!(registry.lookup(index), None);
    }
    registry.register(5, Device::attached(0x1000, window(5)));
    assert_eq!(registry.lookup(5), Some(&Device::attached(0x1000, window(5))));
    assert_eq!(registry.lookup(4), None);
    registry.register(5, Device::attached(0x2000, window(5)));
    assert_eq!(registry.lookup(5), Some(&Device::attached(0x2000, window(5))));
    registry.register(0, Device::new());
    registry.register(7, Device::attached(0x3000, window(7)));
    assert_eq!(registry.lookup(0), Some(&Device { queue: 0, dev: 0, idx: 0, ack_used_idx: 0 }));
    assert_eq!(registry.lookup(7).map(|d| d.queue), Some(0x3000));
    assert_eq!(registry.lookup(8), None);
    assert_eq!(registry.lookup(usize::MAX), None);
}

#[test]
fn register_offsets_and_status_bits() {
    let offsets = [
        (MmioOffsets::HostFeatures, 0x010usize),
        (MmioOffsets::GuestFeatures, 0x020),
        (MmioOffsets::GuestPageSize, 0x028),
        (MmioOffsets::QueueSel, 0x030),
        (MmioOffsets::QueueNumMax, 0x034),
        (MmioOffsets::QueueNum, 0x038),
        (MmioOffsets::QueuePfn, 0x040),
        (MmioOffsets::Status, 0x070),
    ];
    for (register, offset) in offsets {
        assert_eq!(register.val(), offset);
        assert_eq!(register.scale32(), offset / 4);
    }
    assert_eq!(StatusField::Acknowledge.val32(), 1);
    assert_eq!(StatusField::DriverOk.val32(), 4);
    assert_eq!(StatusField::FeaturesOk.val32(), 8);
    assert_eq!(StatusField::Failed.val32(), 128);
    assert!(StatusField::features_ok(13));
    assert!(StatusField::features_ok(8));
    assert!(!StatusField::features_ok(5));
    assert!(!StatusField::features_ok(0));
    assert!(StatusField::Failed.test(128));
    assert!(!StatusField::Failed.test(13));
}

#[test]
fn registry_by_address() {
    let mut registry = DeviceRegistry::new();
    let device = Device::attached(0x4000, window(2));
    assert_eq!(registry.register_at(MMIO_VIRTIO_START, window(2), device), Some(2));
    assert_eq!(
        registry.lookup_at(MMIO_VIRTIO_START, window(2)),
        Some(&Device::attached(0x4000, window(2)))
    );
    assert_eq!(registry.lookup(2), registry.lookup_at(MMIO_VIRTIO_START, window(2)));
    assert_eq!(registry.lookup_at(MMIO_VIRTIO_START, window(3)), None);
    assert_eq!(
        registry.register_at(MMIO_VIRTIO_START, window(8), Device::attached(1, 2)),
        None
    );
    assert_eq!(registry.register_at(MMIO_VIRTIO_START, 0, Device::attached(1, 2)), None);
    assert_eq!(registry.lookup_at(MMIO_VIRTIO_START, window(8)), None);
    for index in 0..MAX_DEVICES {
        assert_eq!(registry.lookup(index).is_some(), index == 2);
    }
}
