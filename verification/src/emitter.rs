//! The event emitter: the set of per-core channels that the packet path
//! writes to, and the entry point that walks a frame and emits what it finds.
//!
//! The set is an ordinary value that is made once and handed to whoever needs
//! it. A core writes to its own channel only, so what one core's consumer
//! sees does not depend on what the other cores do.

use vstd::prelude::*;
use bytes::BytesMut;
use crate::buffer::buffer_bytes;
use crate::channel::{ChannelState, PerCpuChannel};
use crate::packet_log::{wire_encoding, ByteOrder, PacketLog};
use crate::walker::{frame_descriptors, try_ingress, Emission};

verus! {

/// The verdict that lets a frame go on through the network stack.
pub const TC_ACT_OK: i32 = 0;

/// The channels of all cores, and the byte order their producer writes in.
pub struct ChannelsState {
    pub channels: Seq<ChannelState>,
    pub order: ByteOrder,
}

impl ChannelsState {
    /// Every channel satisfies its invariant.
    pub open spec fn wf(self) -> bool {
        forall|core: int| 0 <= core < self.channels.len() ==> (#[trigger] self.channels[core]).wf()
    }

    /// `cores` empty channels of `capacity` slots each.
    pub open spec fn fresh(cores: nat, capacity: nat, order: ByteOrder) -> ChannelsState {
        ChannelsState {
            channels: Seq::new(cores, |core: int| ChannelState::empty(capacity)),
            order,
        }
    }

    /// The channels after `core` emitted `log`: the wire form of `log` is
    /// pushed into that core's channel, and no other channel changes. A core
    /// without a channel emits into nothing.
    pub open spec fn emit(self, core: int, log: PacketLog) -> ChannelsState {
        if 0 <= core < self.channels.len() {
            ChannelsState {
                channels: self.channels.update(
                    core,
                    self.channels[core].push(wire_encoding(log, self.order)),
                ),
                order: self.order,
            }
        } else {
            self
        }
    }

    /// The channels after the consumer of `core` took what was ready for it,
    /// with room for `room` records: the oldest records of that core's
    /// channel are gone from it, as many as were ready, and no other channel
    /// changes.
    pub open spec fn drain(self, core: int, room: nat) -> ChannelsState {
        if 0 <= core < self.channels.len() {
            ChannelsState {
                channels: self.channels.update(
                    core,
                    self.channels[core].consume(self.channels[core].ready(room)),
                ),
                order: self.order,
            }
        } else {
            self
        }
    }

    /// What the consumer of `core` is handed when it takes what is ready,
    /// with room for `room` records: the oldest records of its channel, in
    /// their order.
    pub open spec fn handed_over(self, core: int, room: nat) -> Seq<Seq<u8>> {
        if 0 <= core < self.channels.len() {
            self.channels[core].records.take(self.channels[core].ready(room) as int)
        } else {
            Seq::empty()
        }
    }
}

/// The wire forms of a sequence of descriptors.
pub open spec fn encoded(logs: Seq<PacketLog>, order: ByteOrder) -> Seq<Seq<u8>> {
    Seq::new(logs.len(), |i: int| wire_encoding(logs[i], order))
}

/// The handle to the channels of all cores.
pub struct EventChannels {
    channels: Vec<PerCpuChannel>,
    order: ByteOrder,
}

impl View for EventChannels {
    type V = ChannelsState;

    closed spec fn view(&self) -> ChannelsState {
        ChannelsState {
            channels: Seq::new(self.channels@.len(), |core: int| self.channels@[core]@),
            order: self.order,
        }
    }
}

impl EventChannels {
    /// The invariant of the handle: that of each of its channels.
    pub open spec fn wf(self) -> bool {
        self@.wf()
    }

    /// Makes one empty channel of `capacity` slots for each of `cores` cores.
    pub fn new(cores: usize, capacity: usize, order: ByteOrder) -> (events: EventChannels)
        ensures
            events.wf(),
            events@ == ChannelsState::fresh(cores as nat, capacity as nat, order),
    {
        let mut channels: Vec<PerCpuChannel> = Vec::new();
        while channels.len() < cores
            invariant
                channels@.len() <= cores,
                forall|core: int| 0 <= core < channels@.len() ==> {
                    &&& (#[trigger] channels@[core]).wf()
                    &&& channels@[core]@ == ChannelState::empty(capacity as nat)
                },
            decreases cores - channels@.len(),
        {
            channels.push(PerCpuChannel::new(capacity));
        }
        let events = EventChannels { channels, order };
        assert(events@.channels =~= ChannelsState::fresh(cores as nat, capacity as nat, order).channels);
        events
    }

    /// For how many cores there is a channel.
    pub fn cores(&self) -> (cores: usize)
        ensures
            cores == self@.channels.len(),
    {
        self.channels.len()
    }

    /// The byte order in which descriptors are written.
    pub fn order(&self) -> (order: ByteOrder)
        ensures
            order == self@.order,
    {
        self.order
    }

    /// The channel of `core`, where it has one.
    pub fn channel(&self, core: usize) -> (channel: Option<&PerCpuChannel>)
        ensures
            core < self@.channels.len() ==> channel is Some && channel->Some_0@ == self@.channels[core as int],
            core >= self@.channels.len() ==> channel is None,
    {
        if core < self.channels.len() {
            Some(&self.channels[core])
        } else {
            None
        }
    }

    /// Emits one descriptor on behalf of `core`: its wire form is pushed into
    /// that core's channel. The call never waits and never fails; on a full
    /// channel, or for a core that has none, the descriptor is dropped.
    pub fn emit(&mut self, core: usize, log: PacketLog)
        ensures
            old(self).wf() ==> final(self).wf(),
            final(self)@ == old(self)@.emit(core as int, log),
    {
        if core < self.channels.len() {
            let record = log.to_bytes(self.order);
            let channel = &mut self.channels[core];
            channel.push(record);
            assert(self@.channels =~= old(self)@.emit(core as int, log).channels);
        }
    }

    /// Hands the consumer of `core` the oldest records of its channel, one
    /// into each buffer from the first on, as `PerCpuChannel::read_events`
    /// does, and returns how many. For a core without a channel nothing is
    /// ready.
    pub fn read_events(&mut self, core: usize, buffers: &mut Vec<BytesMut>) -> (read: usize)
        ensures
            old(self).wf() ==> final(self).wf(),
            final(self)@ == old(self)@.drain(core as int, old(buffers)@.len()),
            read == old(self)@.handed_over(core as int, old(buffers)@.len()).len(),
            final(buffers)@.len() == old(buffers)@.len(),
            forall|i: int| 0 <= i < read ==> buffer_bytes(#[trigger] final(buffers)@[i]) == old(
                self,
            )@.handed_over(core as int, old(buffers)@.len())[i],
            forall|i: int| read <= i < final(buffers)@.len() ==> #[trigger] final(buffers)@[i] == old(buffers)@[i],
    {
        if core < self.channels.len() {
            let channel = &mut self.channels[core];
            let read = channel.read_events(buffers);
            assert(self@.channels =~= old(self)@.drain(core as int, old(buffers)@.len()).channels);
            read
        } else {
            0
        }
    }
}

/// Handles one inbound frame on `core`: walks its headers and emits the
/// descriptors found, in order, into that core's channel.
///
/// The verdict is always `TC_ACT_OK`: the frame is observed, never dropped
/// or changed, whatever it holds and whether or not the channel had room.
pub fn ingress(frame: &[u8], core: usize, events: &mut EventChannels) -> (verdict: i32)
    ensures
        verdict == TC_ACT_OK,
        old(events).wf() ==> final(events).wf(),
        match frame_descriptors(frame@) {
            Emission::Nothing => final(events)@ == old(events)@,
            Emission::Payload(payload) => final(events)@ == old(events)@.emit(core as int, payload),
            Emission::SegmentAndPayload(segment, payload) => final(events)@ == old(events)@.emit(
                core as int,
                segment,
            ).emit(core as int, payload),
        },
{
    match try_ingress(frame) {
        Emission::Nothing => {},
        Emission::Payload(payload) => {
            events.emit(core, payload);
        },
        Emission::SegmentAndPayload(segment, payload) => {
            events.emit(core, segment);
            events.emit(core, payload);
        },
    }
    TC_ACT_OK
}

} // verus!
