//! The drain loop: the consumer of one core's channel.
//!
//! A drain task sleeps while its channel is empty. When records are ready it
//! decodes them one by one, in the order in which they were produced, and
//! hands each result on. A record that does not decode is reported and left
//! behind; the records after it are decoded as if nothing had happened.
//!
//! The task moves from waiting to draining when records are ready, from
//! draining to error on a record that does not decode and from there back to
//! draining, and from draining to waiting once no ready record is left. It
//! has no other move, and no state in which it ends.

use vstd::prelude::*;
use bytes::BytesMut;
use crate::buffer::buffer_bytes;
use crate::packet_log::{wire_decoding, ByteOrder, DecodeError, PacketLog};

verus! {

/// Where a drain task stands.
#[derive(Clone, Copy, Debug, PartialEq, Eq, Structural)]
pub enum DrainState {
    /// Suspended until the channel has a record ready.
    Waiting,
    /// Working through the records that were ready at the last wake-up.
    Draining,
    /// The record just looked at did not decode. The state is left as soon
    /// as the failure has been reported.
    Error,
}

/// The state a task is in when it has just found out that `pending` of the
/// ready records are still to be looked at: draining while there are any,
/// waiting once there are none.
pub open spec fn state_with(pending: nat) -> DrainState {
    if pending > 0 {
        DrainState::Draining
    } else {
        DrainState::Waiting
    }
}

/// The consumer of one core's channel.
#[derive(Clone, Copy, Debug)]
pub struct EventDrainLoop {
    /// Where the task stands.
    pub state: DrainState,
    /// How many of the records that were ready at the last wake-up are still
    /// to be looked at.
    pub pending: usize,
    /// The byte order the producer writes in.
    pub order: ByteOrder,
}

impl EventDrainLoop {
    /// A waiting task has nothing pending. A draining task may have nothing
    /// pending either: it is then about to find that out and go to wait.
    pub open spec fn wf(self) -> bool {
        self.state == DrainState::Waiting ==> self.pending == 0
    }

    /// Makes a drain task for a producer that writes in `order`. It starts
    /// out waiting.
    pub fn new(order: ByteOrder) -> (task: EventDrainLoop)
        ensures
            task.wf(),
            task.state == DrainState::Waiting,
            task.pending == 0,
            task.order == order,
    {
        EventDrainLoop { state: DrainState::Waiting, pending: 0, order }
    }

    /// The channel woke the task with `ready` records. With none the task
    /// goes on waiting; otherwise it starts draining them.
    pub fn wake(&mut self, ready: usize)
        requires
            old(self).state == DrainState::Waiting,
        ensures
            final(self).wf(),
            final(self).state == state_with(ready as nat),
            final(self).pending == ready,
            final(self).order == old(self).order,
    {
        self.pending = ready;
        if ready > 0 {
            self.state = DrainState::Draining;
        }
    }

    /// Decodes the next ready record. Whatever comes of it, the record is
    /// done with. Where it decodes, the task goes on draining, or back to
    /// waiting after the last record; where it does not, the task is in
    /// `Error` until `resume` is called.
    pub fn process(&mut self, record: &[u8]) -> (outcome: Result<PacketLog, DecodeError>)
        requires
            old(self).state == DrainState::Draining,
            old(self).pending > 0,
        ensures
            final(self).wf(),
            outcome == wire_decoding(record@, old(self).order),
            final(self).pending == old(self).pending - 1,
            final(self).state == if outcome is Ok {
                state_with(final(self).pending as nat)
            } else {
                DrainState::Error
            },
            final(self).order == old(self).order,
    {
        let outcome = PacketLog::from_bytes(record, self.order);
        self.pending = self.pending - 1;
        match outcome {
            Ok(_) => {
                if self.pending == 0 {
                    self.state = DrainState::Waiting;
                }
            },
            Err(_) => {
                self.state = DrainState::Error;
            },
        }
        outcome
    }

    /// Leaves `Error` once the failure has been reported. The task is
    /// draining again, whether or not a record is left: where none is, the
    /// next move is `finish`.
    pub fn resume(&mut self)
        requires
            old(self).state == DrainState::Error,
        ensures
            final(self).wf(),
            final(self).state == DrainState::Draining,
            final(self).pending == old(self).pending,
            final(self).order == old(self).order,
    {
        self.state = DrainState::Draining;
    }

    /// Ends the draining of a task that has no record left to look at, as it
    /// has after a failure on the last ready record: the task goes back to
    /// waiting.
    pub fn finish(&mut self)
        requires
            old(self).state == DrainState::Draining,
            old(self).pending == 0,
        ensures
            final(self).wf(),
            final(self).state == DrainState::Waiting,
            final(self).pending == 0,
            final(self).order == old(self).order,
    {
        self.state = DrainState::Waiting;
    }

    /// One wake-up from start to end: the first `ready` buffers hold one
    /// record each, and each is decoded in turn. The outcomes come back in
    /// the order of the buffers, failures among them in their places, and
    /// the task is waiting again.
    pub fn drain_ready(&mut self, buffers: &Vec<BytesMut>, ready: usize) -> (outcomes: Vec<
        Result<PacketLog, DecodeError>,
    >)
        requires
            old(self).state == DrainState::Waiting,
            ready <= buffers@.len(),
        ensures
            final(self).wf(),
            final(self).state == DrainState::Waiting,
            final(self).order == old(self).order,
            outcomes@.len() == ready,
            forall|i: int| 0 <= i < ready ==> #[trigger] outcomes@[i] == wire_decoding(
                buffer_bytes(buffers@[i]),
                old(self).order,
            ),
    {
        self.wake(ready);
        let mut outcomes: Vec<Result<PacketLog, DecodeError>> = Vec::new();
        let mut next: usize = 0;
        while next < ready
            invariant
                next <= ready <= buffers@.len(),
                self.state == state_with((ready - next) as nat),
                self.pending == ready - next,
                self.order == old(self).order,
                outcomes@.len() == next,
                forall|i: int| 0 <= i < next ==> #[trigger] outcomes@[i] == wire_decoding(
                    buffer_bytes(buffers@[i]),
                    old(self).order,
                ),
            decreases ready - next,
        {
            let record: &[u8] = buffers[next].as_ref();
            let outcome = self.process(record);
            if outcome.is_err() {
                self.resume();
                if self.pending == 0 {
                    self.finish();
                }
            }
            outcomes.push(outcome);
            next = next + 1;
        }
        outcomes
    }
}

} // verus!
