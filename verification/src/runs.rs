//! Whole runs of the handshake: what holds of the stages a run goes through,
//! of the accesses it asks for and of the registry, whatever the device
//! answers.

use crate::negotiation::{Action, Event, Failure, Negotiation, Platform, State};
use crate::registry::Device;
use crate::regs::{
    status_acknowledged, status_driver_seen, status_features_offered, status_live, MmioOffsets,
    StatusField,
};
use vstd::prelude::*;

verus! {

impl Negotiation {
    /// The handshake after the events of `events`, in order.
    pub open spec fn run(self, events: Seq<Event>) -> Negotiation
        decreases events.len(),
    {
        if events.len() == 0 {
            self
        } else {
            self.run(events.drop_last()).next(events.last())
        }
    }

    /// The registry after the events of `events`, in order.
    pub open spec fn run_registry(self, events: Seq<Event>, slots: Seq<Option<Device>>) -> Seq<
        Option<Device>,
    >
        decreases events.len(),
    {
        if events.len() == 0 {
            slots
        } else {
            self.run(events.drop_last()).registry_after(
                events.last(),
                self.run_registry(events.drop_last(), slots),
            )
        }
    }

    /// The accesses that a run asks for: the one pending at the start, then
    /// the one pending after each event.
    pub open spec fn trace(self, events: Seq<Event>) -> Seq<Action> {
        Seq::new(events.len() + 1, |k: int| self.run(events.take(k)).spec_pending())
    }

    /// The step is one that a run goes through before the device's largest
    /// ring was found large enough, or one of a failed run.
    pub open spec fn before_queue_accepted(self) -> bool {
        !self.step.queue_accepted()
    }

    /// An event keeps a handshake well formed, and never changes the
    /// platform, the device or its slot.
    pub proof fn lemma_next_wf(self, event: Event)
        requires
            self.wf(),
        ensures
            self.next(event).wf(),
            self.next(event).platform == self.platform,
            self.next(event).dev == self.dev,
            self.next(event).index == self.index,
    {
    }

    /// An event leaves the handshake in its stage or moves it to the next
    /// one in order; or it moves it to `Failed`, from `FeaturesConfirmed`
    /// or `QueueConfigured` and from nowhere else. Nothing follows `Live`
    /// or `Failed`.
    pub proof fn lemma_stage_order(self, event: Event)
        ensures
            ({
                let before = self.step.spec_state();
                let after = self.next(event).step.spec_state();
                ||| after == before
                ||| after != State::Failed && after.position() == before.position() + 1
                ||| after == State::Failed && (before == State::FeaturesConfirmed || before
                    == State::QueueConfigured)
            }),
            self.step is Live ==> self.next(event) == self,
            self.step is Failed ==> self.next(event) == self,
    {
    }

    /// A run keeps a handshake well formed, and never changes the platform,
    /// the device or its slot.
    pub proof fn lemma_run_wf(self, events: Seq<Event>)
        requires
            self.wf(),
        ensures
            self.run(events).wf(),
            self.run(events).platform == self.platform,
            self.run(events).dev == self.dev,
            self.run(events).index == self.index,
        decreases events.len(),
    {
        if events.len() > 0 {
            self.lemma_run_wf(events.drop_last());
            self.run(events.drop_last()).lemma_next_wf(events.last());
        }
    }

    /// A failed handshake stays failed for the same reason, whatever
    /// follows: it never asks for pages, never holds a ring, and never
    /// touches the registry.
    pub proof fn lemma_failure_is_final(self, events: Seq<Event>, slots: Seq<Option<Device>>)
        requires
            self.wf(),
            self.step.spec_state() == State::Failed,
        ensures
            self.run(events).step.spec_state() == State::Failed,
            self.run(events).failure == self.failure,
            self.run(events).queue is None,
            !(self.run(events).spec_pending() is AllocatePages),
            self.run_registry(events, slots) == slots,
        decreases events.len(),
    {
        if events.len() > 0 {
            self.lemma_failure_is_final(events.drop_last(), slots);
        }
    }

    /// When the device has cleared the features bit on the read back, the
    /// handshake fails with `FeaturesRejected`: it asks for the failed
    /// status to be written, and whatever follows, it never asks for pages
    /// and never puts the device into the registry.
    pub proof fn lemma_rejected_features(
        self,
        status: u32,
        later: Seq<Event>,
        slots: Seq<Option<Device>>,
    )
        requires
            self.wf(),
            self.step is ReadStatus,
            !StatusField::FeaturesOk.spec_test(status),
        ensures
            ({
                let failed = self.next(Event::Value(status));
                &&& failed.spec_pending() == (Action::Write {
                    register: MmioOffsets::Status,
                    value: StatusField::Failed.spec_val32(),
                })
                &&& failed.next(Event::Written).spec_pending() == (Action::Finished {
                    outcome: Err(Failure::FeaturesRejected),
                })
                &&& failed.run(later).step.spec_state() == State::Failed
                &&& failed.run(later).failure == Some(Failure::FeaturesRejected)
                &&& !(failed.run(later).spec_pending() is AllocatePages)
                &&& self.registry_after(Event::Value(status), slots) == slots
                &&& failed.run_registry(later, slots) == slots
            }),
    {
        self.next(Event::Value(status)).lemma_failure_is_final(later, slots);
    }

    /// When the device's largest ring is smaller than the ring of the
    /// platform, the handshake fails with `QueueTooSmall`. No ring has been
    /// allocated by then, and whatever follows, the handshake never asks
    /// for pages and never puts the device into the registry.
    pub proof fn lemma_queue_too_small(
        self,
        max: u32,
        later: Seq<Event>,
        slots: Seq<Option<Device>>,
    )
        requires
            self.wf(),
            self.step is ReadQueueNumMax,
            self.platform.ring_size > max,
        ensures
            self.queue is None,
            ({
                let failed = self.next(Event::Value(max));
                &&& failed.spec_pending() == (Action::Write {
                    register: MmioOffsets::Status,
                    value: StatusField::Failed.spec_val32(),
                })
                &&& failed.next(Event::Written).spec_pending() == (Action::Finished {
                    outcome: Err(Failure::QueueTooSmall),
                })
                &&& failed.run(later).step.spec_state() == State::Failed
                &&& failed.run(later).failure == Some(Failure::QueueTooSmall)
                &&& failed.run(later).queue is None
                &&& !(failed.run(later).spec_pending() is AllocatePages)
                &&& self.registry_after(Event::Value(max), slots) == slots
                &&& failed.run_registry(later, slots) == slots
            }),
    {
        self.next(Event::Value(max)).lemma_failure_is_final(later, slots);
    }

    /// A run that ends failed, or before the device's largest ring was
    /// found large enough, has asked for no pages at any point.
    pub proof fn lemma_no_pages_before_queue_accepted(self, events: Seq<Event>, k: int)
        requires
            self.wf(),
            self.run(events).before_queue_accepted(),
            0 <= k <= events.len(),
        ensures
            self.run(events.take(k)).before_queue_accepted(),
            !(self.run(events.take(k)).spec_pending() is AllocatePages),
            self.run(events.take(k)).queue is None,
        decreases events.len(),
    {
        self.lemma_run_wf(events.take(k));
        if k == events.len() {
            assert(events.take(k) =~= events);
        } else {
            let front = events.drop_last();
            self.lemma_run_wf(front);
            assert(front.take(k) =~= events.take(k));
            self.lemma_no_pages_before_queue_accepted(front, k);
        }
    }

    /// The registry changes in a run only by the event that makes the
    /// device live, and then only in the device's slot: while the handshake
    /// has not ended live the registry is as it was, and a run that ends
    /// live has put the device's handle into its slot.
    pub proof fn lemma_registry_follows_run(self, events: Seq<Event>, slots: Seq<Option<Device>>)
        requires
            self.wf(),
            !(self.step is Live),
        ensures
            !(self.run(events).step is Live) ==> self.run_registry(events, slots) == slots,
            self.run(events).step is Live ==> self.run_registry(events, slots) == slots.update(
                self.index as int,
                Some(self.run(events).device()),
            ),
        decreases events.len(),
    {
        if events.len() > 0 {
            let front = events.drop_last();
            self.lemma_registry_follows_run(front, slots);
            self.lemma_run_wf(front);
            self.run(front).lemma_stage_order(events.last());
        }
    }

    /// One more event of a run is one more step of the handshake.
    pub proof fn lemma_run_step(self, events: Seq<Event>, k: int)
        requires
            0 <= k < events.len(),
        ensures
            self.run(events.take(k + 1)) == self.run(events.take(k)).next(events[k]),
    {
        assert(events.take(k + 1).drop_last() =~= events.take(k));
    }

    /// A run in which the device keeps the features bit and offers a ring
    /// that is large enough asks for exactly the accesses of `handshake`, in
    /// that order, ends live with the ring it was given, and puts the
    /// device's handle into its slot of the registry and nowhere else.
    pub proof fn lemma_accepted_run(
        self,
        features: u32,
        status: u32,
        max: u32,
        ring: usize,
        slots: Seq<Option<Device>>,
    )
        requires
            self.wf(),
            self.step is WriteReset,
            StatusField::FeaturesOk.spec_test(status),
            self.platform.ring_size <= max,
            self.platform.frame_of(ring) <= u32::MAX,
        ensures
            ({
                let events = accepting_events(features, status, max, ring);
                &&& self.trace(events) == handshake(self.platform, self.index, features, ring)
                &&& self.run(events).step is Live
                &&& self.run(events).host_features == features
                &&& self.run(events).queue == Some(ring)
                &&& self.run_registry(events, slots) == slots.update(
                    self.index as int,
                    Some(Device { queue: ring, dev: self.dev, idx: 0, ack_used_idx: 0 }),
                )
            }),
    {
        let events = accepting_events(features, status, max, ring);
        assert(events.take(0) =~= Seq::<Event>::empty());
        self.lemma_run_step(events, 0);
        self.lemma_run_step(events, 1);
        self.lemma_run_step(events, 2);
        self.lemma_run_step(events, 3);
        self.lemma_run_step(events, 4);
        self.lemma_run_step(events, 5);
        self.lemma_run_step(events, 6);
        self.lemma_run_step(events, 7);
        self.lemma_run_step(events, 8);
        self.lemma_run_step(events, 9);
        self.lemma_run_step(events, 10);
        self.lemma_run_step(events, 11);
        self.lemma_run_step(events, 12);
        self.lemma_run_step(events, 13);
        assert(events.take(14) =~= events);
        self.lemma_registry_follows_run(events, slots);
        let asked = self.trace(events);
        let expected = handshake(self.platform, self.index, features, ring);
        assert(asked.len() == expected.len());
        assert forall|k: int| 0 <= k < 15 implies asked[k] == expected[k] by {
            if k < 4 {
            } else if k < 8 {
            } else if k < 12 {
            } else {
            }
        }
        assert(asked =~= expected);
    }
}

/// The events of a run in which the device offers `features`, reads back
/// `status`, offers a ring of at most `max` entries, and the ring is
/// allocated at `ring`.
pub open spec fn accepting_events(features: u32, status: u32, max: u32, ring: usize) -> Seq<
    Event,
> {
    seq![
        Event::Written,
        Event::Written,
        Event::Written,
        Event::Value(features),
        Event::Written,
        Event::Written,
        Event::Value(status),
        Event::Written,
        Event::Value(max),
        Event::Written,
        Event::Allocated(ring),
        Event::Written,
        Event::Written,
        Event::Written,
    ]
}

/// The accesses of a handshake that succeeds, in order: the status is
/// reset, then built up bit by bit; the features that the device offers are
/// accepted as they are; the ring is announced, allocated and published by
/// its frame number; and the device is declared live.
pub open spec fn handshake(platform: Platform, index: usize, features: u32, ring: usize) -> Seq<
    Action,
> {
    seq![
        Action::Write { register: MmioOffsets::Status, value: 0 },
        Action::Write { register: MmioOffsets::Status, value: status_acknowledged() },
        Action::Write { register: MmioOffsets::Status, value: status_driver_seen() },
        Action::Read { register: MmioOffsets::HostFeatures },
        Action::Write { register: MmioOffsets::GuestFeatures, value: features },
        Action::Write { register: MmioOffsets::Status, value: status_features_offered() },
        Action::Read { register: MmioOffsets::Status },
        Action::Write { register: MmioOffsets::QueueSel, value: 0 },
        Action::Read { register: MmioOffsets::QueueNumMax },
        Action::Write { register: MmioOffsets::QueueNum, value: platform.ring_size },
        Action::AllocatePages { pages: platform.ring_pages() as usize },
        Action::Write { register: MmioOffsets::GuestPageSize, value: platform.page_size },
        Action::Write { register: MmioOffsets::QueuePfn, value: platform.frame_of(ring) as u32 },
        Action::Write { register: MmioOffsets::Status, value: status_live() },
        Action::Finished { outcome: Ok(index) },
    ]
}

} // verus!
