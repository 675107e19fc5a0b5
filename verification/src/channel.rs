//! Per-core channels: bounded, ordered, lossy queues of raw records.
//!
//! Each core has a channel of its own. The producer on that core pushes and
//! never waits: when the channel is full the new record is dropped and the
//! channel keeps what it has. One consumer per channel takes the records out
//! in the order in which they went in.

use vstd::prelude::*;
use std::collections::VecDeque;
use bytes::BytesMut;
use crate::buffer::buffer_bytes;
use crate::packet_log::RECORD_SIZE;

verus! {

/// Number of slots a channel has where nothing else is asked for.
pub const DEFAULT_CAPACITY: usize = 1024;

/// What a channel is to its two ends: the records it holds, oldest first,
/// how many it can hold, and how many pushes it has dropped.
pub struct ChannelState {
    pub records: Seq<Seq<u8>>,
    pub capacity: nat,
    pub dropped: nat,
}

impl ChannelState {
    /// A channel never holds more than its capacity, each of its records has
    /// the size of one descriptor, and its drop counter fits the 64 bits it
    /// is kept in.
    pub open spec fn wf(self) -> bool {
        &&& self.records.len() <= self.capacity
        &&& forall|i: int| 0 <= i < self.records.len() ==> (#[trigger] self.records[i]).len() == RECORD_SIZE
        &&& self.dropped <= u64::MAX
    }

    /// The empty channel of the given capacity.
    pub open spec fn empty(capacity: nat) -> ChannelState {
        ChannelState { records: Seq::empty(), capacity, dropped: 0 }
    }

    /// Whether a push would be dropped.
    pub open spec fn is_full(self) -> bool {
        self.records.len() >= self.capacity
    }

    /// The channel after a push: the record goes to the back, or, where the
    /// channel is full, is dropped and counted. The count stops at
    /// `u64::MAX`.
    pub open spec fn push(self, record: Seq<u8>) -> ChannelState {
        if self.is_full() {
            ChannelState {
                records: self.records,
                capacity: self.capacity,
                dropped: if self.dropped < u64::MAX { self.dropped + 1 } else { self.dropped },
            }
        } else {
            ChannelState {
                records: self.records.push(record),
                capacity: self.capacity,
                dropped: self.dropped,
            }
        }
    }

    /// The channel after the given records were pushed one after the other.
    pub open spec fn push_all(self, records: Seq<Seq<u8>>) -> ChannelState
        decreases records.len(),
    {
        if records.len() == 0 {
            self
        } else {
            self.push_all(records.drop_last()).push(records.last())
        }
    }

    /// How many records a consumer with room for `room` gets at once.
    pub open spec fn ready(self, room: nat) -> nat {
        if self.records.len() <= room {
            self.records.len()
        } else {
            room
        }
    }

    /// The channel after its `count` oldest records were taken out.
    pub open spec fn consume(self, count: nat) -> ChannelState
        recommends
            count <= self.records.len(),
    {
        ChannelState {
            records: self.records.skip(count as int),
            capacity: self.capacity,
            dropped: self.dropped,
        }
    }
}

/// The `limit` oldest items of a sequence, or all of it where it has no more.
pub open spec fn oldest<T>(items: Seq<T>, limit: nat) -> Seq<T> {
    if items.len() <= limit {
        items
    } else {
        items.take(limit as int)
    }
}

/// One core's channel.
pub struct PerCpuChannel {
    slots: VecDeque<[u8; 4]>,
    capacity: usize,
    dropped: u64,
}

impl View for PerCpuChannel {
    type V = ChannelState;

    closed spec fn view(&self) -> ChannelState {
        ChannelState {
            records: Seq::new(self.slots@.len(), |i: int| self.slots@[i]@),
            capacity: self.capacity as nat,
            dropped: self.dropped as nat,
        }
    }
}

impl PerCpuChannel {
    /// The invariant of a channel: that of its state.
    pub open spec fn wf(self) -> bool {
        self@.wf()
    }

    /// Makes an empty channel with room for `capacity` records.
    pub fn new(capacity: usize) -> (channel: PerCpuChannel)
        ensures
            channel.wf(),
            channel@ == ChannelState::empty(capacity as nat),
    {
        let channel = PerCpuChannel { slots: VecDeque::new(), capacity, dropped: 0 };
        assert(channel@.records =~= Seq::<Seq<u8>>::empty());
        channel
    }

    /// How many records the channel can hold.
    pub fn capacity(&self) -> (capacity: usize)
        ensures
            capacity == self@.capacity,
    {
        self.capacity
    }

    /// How many records the channel holds.
    pub fn len(&self) -> (len: usize)
        ensures
            len == self@.records.len(),
    {
        self.slots.len()
    }

    /// Whether the channel holds no record.
    pub fn is_empty(&self) -> (empty: bool)
        ensures
            empty == (self@.records.len() == 0),
    {
        self.slots.len() == 0
    }

    /// How many pushes were dropped because the channel was full.
    pub fn dropped(&self) -> (dropped: u64)
        ensures
            dropped == self@.dropped,
    {
        self.dropped
    }

    /// Pushes a record without ever waiting. On a full channel the record is
    /// dropped, the channel keeps its contents, and the drop is counted.
    /// Returns whether the record went in.
    pub fn push(&mut self, record: [u8; 4]) -> (accepted: bool)
        ensures
            old(self).wf() ==> final(self).wf(),
            final(self)@ == old(self)@.push(record@),
            accepted == !old(self)@.is_full(),
    {
        if self.slots.len() < self.capacity {
            self.slots.push_back(record);
            assert(self@.records =~= old(self)@.records.push(record@));
            true
        } else {
            if self.dropped < u64::MAX {
                self.dropped = self.dropped + 1;
            }
            assert(self@.records =~= old(self)@.records);
            false
        }
    }

    /// Moves the oldest records into the given buffers, one record into each
    /// buffer from the first on, until the channel is empty or every buffer
    /// is used. Returns how many were moved. A buffer that gets a record
    /// holds that record and nothing else; the other buffers are not touched.
    pub fn read_events(&mut self, buffers: &mut Vec<BytesMut>) -> (read: usize)
        ensures
            old(self).wf() ==> final(self).wf(),
            read == old(self)@.ready(old(buffers)@.len()),
            final(self)@ == old(self)@.consume(read as nat),
            final(buffers)@.len() == old(buffers)@.len(),
            forall|i: int| 0 <= i < read ==> buffer_bytes(#[trigger] final(buffers)@[i]) == old(self)@.records[i],
            forall|i: int| read <= i < final(buffers)@.len() ==> #[trigger] final(buffers)@[i] == old(buffers)@[i],
    {
        let mut read: usize = 0;
        assert(self@.records =~= old(self)@.records.skip(0));
        while read < buffers.len() && self.slots.len() > 0
            invariant
                old(self).wf() ==> self.wf(),
                read <= buffers@.len(),
                read <= old(self)@.records.len(),
                buffers@.len() == old(buffers)@.len(),
                self@ == old(self)@.consume(read as nat),
                forall|i: int| 0 <= i < read ==> buffer_bytes(#[trigger] buffers@[i]) == old(self)@.records[i],
                forall|i: int| read <= i < buffers@.len() ==> #[trigger] buffers@[i] == old(buffers)@[i],
            decreases buffers@.len() - read,
        {
            let ghost before = self@;
            if let Some(record) = self.slots.pop_front() {
                assert(self@.records =~= before.records.skip(1));
                assert(before.records.skip(1) =~= old(self)@.records.skip(read + 1));
                assert(record@ == before.records[0]);
                assert(before.records[0] == old(self)@.records[read as int]);
                let buffer = &mut buffers[read];
                buffer.clear();
                buffer.extend_from_slice(record.as_slice());
                assert(buffer_bytes(buffers@[read as int]) =~= record@);
                read = read + 1;
            }
        }
        assert(self@.records.len() == old(self)@.records.len() - read);
        read
    }
}

/// How many of `pushes` pushes a channel drops that holds `held` records
/// and has room for `capacity`.
pub open spec fn overflow(held: nat, capacity: nat, pushes: nat) -> nat {
    if held + pushes <= capacity {
        0
    } else {
        (held + pushes - capacity) as nat
    }
}

/// Pushing any number of records leaves in the channel the oldest of what it
/// held and what was pushed, as many as it has room for and in the order of
/// the pushes: the pushes that find the channel full are the ones dropped,
/// and each of them is counted.
pub proof fn lemma_overflow_keeps_oldest(state: ChannelState, records: Seq<Seq<u8>>)
    requires
        state.records.len() <= state.capacity,
        state.dropped <= u64::MAX,
    ensures
        state.push_all(records).records == oldest(state.records + records, state.capacity),
        state.push_all(records).capacity == state.capacity,
        state.push_all(records).dropped == if state.dropped + overflow(
            state.records.len(),
            state.capacity,
            records.len(),
        ) <= u64::MAX {
            state.dropped + overflow(state.records.len(), state.capacity, records.len())
        } else {
            u64::MAX as nat
        },
    decreases records.len(),
{
    if records.len() == 0 {
        assert(state.records + records =~= state.records);
    } else {
        let earlier = records.drop_last();
        lemma_overflow_keeps_oldest(state, earlier);
        let before = state.push_all(earlier);
        let all = state.records + records;
        assert(all =~= (state.records + earlier).push(records.last()));
        if before.is_full() {
            assert(oldest(all, state.capacity) =~= before.records);
        } else {
            assert(oldest(all, state.capacity) =~= before.records.push(records.last()));
        }
    }
}

/// Pushing more records than an empty channel has room for leaves exactly as
/// many as it has room for: the first ones pushed.
pub proof fn lemma_overflow_of_empty(capacity: nat, records: Seq<Seq<u8>>)
    requires
        records.len() > capacity,
    ensures
        ChannelState::empty(capacity).push_all(records).records == records.take(capacity as int),
        ChannelState::empty(capacity).push_all(records).records.len() == capacity,
{
    let state = ChannelState::empty(capacity);
    lemma_overflow_keeps_oldest(state, records);
    assert(state.records + records =~= records);
}

} // verus!
