//! What holds of the channels over time.
//!
//! Cores emit and consumers drain in whatever order the machine schedules
//! them. Here such a history is a sequence of steps, each an emission by one
//! core or a drain by one core's consumer, and the laws say what a consumer
//! has seen at the end of any such sequence.

use vstd::prelude::*;
use crate::channel::lemma_overflow_keeps_oldest;
use crate::emitter::{encoded, ChannelsState};
use crate::packet_log::{
    lemma_u16_round_trip, lemma_wire_round_trip, wire_decoding, ByteOrder, DecodeError, PacketLog,
};

verus! {

/// One thing that happens to the channels.
pub enum Step {
    /// `core` emits `log`.
    Emit { core: int, log: PacketLog },
    /// The consumer of `core` takes what is ready, with room for `room`
    /// records.
    Drain { core: int, room: nat },
}

/// The channels after one step.
pub open spec fn step(state: ChannelsState, step: Step) -> ChannelsState {
    match step {
        Step::Emit { core, log } => state.emit(core, log),
        Step::Drain { core, room } => state.drain(core, room),
    }
}

/// The channels after the given steps, taken in their order.
pub open spec fn run(state: ChannelsState, steps: Seq<Step>) -> ChannelsState
    decreases steps.len(),
{
    if steps.len() == 0 {
        state
    } else {
        step(run(state, steps.drop_last()), steps.last())
    }
}

/// The records the consumer of `core` has been handed in the course of the
/// given steps, in the order in which it got them.
pub open spec fn observed(state: ChannelsState, steps: Seq<Step>, core: int) -> Seq<Seq<u8>>
    decreases steps.len(),
{
    if steps.len() == 0 {
        Seq::empty()
    } else {
        let earlier = observed(state, steps.drop_last(), core);
        match steps.last() {
            Step::Drain { core: drained, room } if drained == core => earlier + run(
                state,
                steps.drop_last(),
            ).handed_over(core, room),
            _ => earlier,
        }
    }
}

/// What `core` emitted in the course of the given steps, in the order of
/// emission.
pub open spec fn emitted_on(steps: Seq<Step>, core: int) -> Seq<PacketLog>
    decreases steps.len(),
{
    if steps.len() == 0 {
        Seq::empty()
    } else {
        let earlier = emitted_on(steps.drop_last(), core);
        match steps.last() {
            Step::Emit { core: emitter, log } if emitter == core => earlier.push(log),
            _ => earlier,
        }
    }
}

/// Whether the consumer of `core` takes no part in the given steps.
pub open spec fn undrained(steps: Seq<Step>, core: int) -> bool {
    forall|i: int| 0 <= i < steps.len() ==> !(#[trigger] steps[i] matches Step::Drain { core: drained, .. } && drained == core)
}

/// A step changes neither the number of channels, nor their capacities, nor
/// the byte order; it keeps every channel's invariant, and it lowers no
/// drop counter.
pub proof fn lemma_step_keeps_shape(state: ChannelsState, next: Step)
    requires
        state.wf(),
    ensures
        step(state, next).wf(),
        step(state, next).order == state.order,
        step(state, next).channels.len() == state.channels.len(),
        forall|core: int| 0 <= core < state.channels.len() ==> {
            &&& (#[trigger] step(state, next).channels[core]).capacity == state.channels[core].capacity
            &&& step(state, next).channels[core].dropped >= state.channels[core].dropped
        },
{
    match next {
        Step::Emit { core, log } => {
            lemma_u16_round_trip(log.start, state.order);
            lemma_u16_round_trip(log.len, state.order);
        },
        Step::Drain { .. } => {},
    }
}

/// What holds of one step holds of any number of them.
pub proof fn lemma_run_keeps_shape(state: ChannelsState, steps: Seq<Step>)
    requires
        state.wf(),
    ensures
        run(state, steps).wf(),
        run(state, steps).order == state.order,
        run(state, steps).channels.len() == state.channels.len(),
        forall|core: int| 0 <= core < state.channels.len() ==> {
            &&& (#[trigger] run(state, steps).channels[core]).capacity == state.channels[core].capacity
            &&& run(state, steps).channels[core].dropped >= state.channels[core].dropped
        },
    decreases steps.len(),
{
    if steps.len() > 0 {
        lemma_run_keeps_shape(state, steps.drop_last());
        lemma_step_keeps_shape(run(state, steps.drop_last()), steps.last());
    }
}

/// As long as no push on `core` is dropped, what its consumer has been
/// handed so far, followed by what is still in its channel, is what the
/// channel held at first followed by what `core` emitted since, in the order
/// of emission. This holds however the steps of the other cores and their
/// consumers are interleaved with it: none of them adds to, takes from or
/// reorders what `core` emitted.
pub proof fn lemma_consumer_sees_emissions_in_order(state: ChannelsState, steps: Seq<Step>, core: int)
    requires
        state.wf(),
        0 <= core < state.channels.len(),
        state.channels[core].dropped < u64::MAX,
        run(state, steps).channels[core].dropped == state.channels[core].dropped,
    ensures
        observed(state, steps, core) + run(state, steps).channels[core].records
            == state.channels[core].records + encoded(emitted_on(steps, core), state.order),
    decreases steps.len(),
{
    let own = encoded(emitted_on(steps, core), state.order);
    if steps.len() == 0 {
        assert(observed(state, steps, core) + state.channels[core].records =~= state.channels[core].records
            + own);
    } else {
        let earlier = steps.drop_last();
        let before = run(state, earlier);
        lemma_run_keeps_shape(state, earlier);
        lemma_step_keeps_shape(before, steps.last());
        lemma_consumer_sees_emissions_in_order(state, earlier, core);
        let seen = observed(state, earlier, core);
        let held = before.channels[core].records;
        let own_earlier = encoded(emitted_on(earlier, core), state.order);
        match steps.last() {
            Step::Emit { core: emitter, log } => {
                if emitter == core {
                    assert(own =~= own_earlier.push(own.last()));
                    assert(seen + held.push(own.last()) =~= (seen + held).push(own.last()));
                    assert(state.channels[core].records + own =~= (state.channels[core].records
                        + own_earlier).push(own.last()));
                } else {
                    assert(own =~= own_earlier);
                }
            },
            Step::Drain { core: drained, room } => {
                assert(own =~= own_earlier);
                if drained == core {
                    let count = before.channels[core].ready(room) as int;
                    assert((seen + held.take(count)) + held.skip(count) =~= seen + held);
                }
            },
        }
    }
}

/// A core that emits no more descriptors than its channel has room left for
/// loses none of them, whenever its consumer drains and whatever the other
/// cores do: no push on it is dropped, and what its consumer has been handed,
/// followed by what is still in its channel, is what the channel held at
/// first followed by what `core` emitted, in the order of emission.
pub proof fn lemma_within_capacity_nothing_is_lost(state: ChannelsState, steps: Seq<Step>, core: int)
    requires
        state.wf(),
        0 <= core < state.channels.len(),
        state.channels[core].records.len() + emitted_on(steps, core).len() <= state.channels[core].capacity,
    ensures
        run(state, steps).channels[core].dropped == state.channels[core].dropped,
        observed(state, steps, core) + run(state, steps).channels[core].records
            == state.channels[core].records + encoded(emitted_on(steps, core), state.order),
    decreases steps.len(),
{
    let own = encoded(emitted_on(steps, core), state.order);
    if steps.len() == 0 {
        assert(observed(state, steps, core) + state.channels[core].records =~= state.channels[core].records
            + own);
    } else {
        let earlier = steps.drop_last();
        let before = run(state, earlier);
        lemma_run_keeps_shape(state, earlier);
        lemma_within_capacity_nothing_is_lost(state, earlier, core);
        let seen = observed(state, earlier, core);
        let held = before.channels[core].records;
        let own_earlier = encoded(emitted_on(earlier, core), state.order);
        assert((seen + held).len() == (state.channels[core].records + own_earlier).len());
        match steps.last() {
            Step::Emit { core: emitter, log } => {
                if emitter == core {
                    assert(own =~= own_earlier.push(own.last()));
                    assert(seen + held.push(own.last()) =~= (seen + held).push(own.last()));
                    assert(state.channels[core].records + own =~= (state.channels[core].records
                        + own_earlier).push(own.last()));
                } else {
                    assert(own =~= own_earlier);
                }
            },
            Step::Drain { core: drained, room } => {
                assert(own =~= own_earlier);
                if drained == core {
                    let count = before.channels[core].ready(room) as int;
                    assert((seen + held.take(count)) + held.skip(count) =~= seen + held);
                }
            },
        }
    }
}

/// Whatever happens, a consumer is handed nothing but what its own core's
/// channel held or its own core emitted: every record that the consumer of
/// `core` has been handed, and every record still in the channel of `core`,
/// is one that the channel held at first or the wire form of a descriptor
/// that `core` itself emitted. No record of another core ever shows up, with
/// or without drops.
pub proof fn lemma_consumer_sees_only_its_own(state: ChannelsState, steps: Seq<Step>, core: int)
    requires
        0 <= core < state.channels.len(),
    ensures
        run(state, steps).channels.len() == state.channels.len(),
        run(state, steps).order == state.order,
        forall|i: int| 0 <= i < observed(state, steps, core).len() ==> (state.channels[core].records
            + encoded(emitted_on(steps, core), state.order)).contains(#[trigger] observed(state, steps, core)[i]),
        forall|i: int| 0 <= i < run(state, steps).channels[core].records.len() ==> (state.channels[core].records
            + encoded(emitted_on(steps, core), state.order)).contains(
            #[trigger] run(state, steps).channels[core].records[i],
        ),
    decreases steps.len(),
{
    let source = state.channels[core].records + encoded(emitted_on(steps, core), state.order);
    let seen = observed(state, steps, core);
    let held = run(state, steps).channels[core].records;
    if steps.len() == 0 {
        assert forall|i: int| 0 <= i < held.len() implies source.contains(#[trigger] held[i]) by {
            assert(source[i] == held[i]);
        }
    } else {
        let earlier = steps.drop_last();
        lemma_consumer_sees_only_its_own(state, earlier, core);
        let before = run(state, earlier);
        let source_earlier = state.channels[core].records + encoded(emitted_on(earlier, core), state.order);
        let seen_earlier = observed(state, earlier, core);
        let held_earlier = before.channels[core].records;
        assert(source_earlier.len() <= source.len());
        assert forall|j: int| 0 <= j < source_earlier.len() implies source[j] == #[trigger] source_earlier[j] by {}
        assert forall|record: Seq<u8>| source_earlier.contains(record) implies source.contains(record) by {
            let j = choose|j: int| 0 <= j < source_earlier.len() && source_earlier[j] == record;
            assert(source[j] == record);
        }
        assert forall|i: int| 0 <= i < seen.len() implies source.contains(#[trigger] seen[i]) by {
            if i < seen_earlier.len() {
                assert(seen[i] == seen_earlier[i]);
            } else {
                assert(seen[i] == held_earlier[i - seen_earlier.len()]);
            }
        }
        assert forall|i: int| 0 <= i < held.len() implies source.contains(#[trigger] held[i]) by {
            match steps.last() {
                Step::Emit { core: emitter, log } => {
                    if emitter == core && i == held_earlier.len() {
                        assert(source[source.len() - 1] == held[i]);
                    } else {
                        assert(held[i] == held_earlier[i]);
                    }
                },
                Step::Drain { core: drained, room } => {
                    if drained == core {
                        let count = before.channels[core].ready(room) as int;
                        assert(held[i] == held_earlier[i + count]);
                    } else {
                        assert(held[i] == held_earlier[i]);
                    }
                },
            }
        }
    }
}

/// While the consumer of `core` stays away, the channel of `core` ends up as
/// if that core's own emissions had been pushed into it, in their order, and
/// nothing else had happened, whatever the other cores and their consumers
/// did meanwhile.
pub proof fn lemma_each_core_fills_its_own(state: ChannelsState, steps: Seq<Step>, core: int)
    requires
        0 <= core < state.channels.len(),
        undrained(steps, core),
    ensures
        run(state, steps).channels.len() == state.channels.len(),
        run(state, steps).order == state.order,
        run(state, steps).channels[core] == state.channels[core].push_all(
            encoded(emitted_on(steps, core), state.order),
        ),
    decreases steps.len(),
{
    let own = encoded(emitted_on(steps, core), state.order);
    if steps.len() == 0 {
        assert(own =~= Seq::<Seq<u8>>::empty());
    } else {
        let earlier = steps.drop_last();
        assert forall|i: int| 0 <= i < earlier.len() implies !(#[trigger] earlier[i] matches Step::Drain {
            core: drained,
            ..
        } && drained == core) by {
            assert(earlier[i] == steps[i]);
        }
        lemma_each_core_fills_its_own(state, earlier, core);
        let own_earlier = encoded(emitted_on(earlier, core), state.order);
        match steps.last() {
            Step::Emit { core: emitter, log } => {
                if emitter == core {
                    assert(own.drop_last() =~= own_earlier);
                } else {
                    assert(own =~= own_earlier);
                }
            },
            Step::Drain { core: drained, room } => {
                assert(own =~= own_earlier);
            },
        }
    }
}

/// From empty channels, a core that emits no more descriptors than its
/// channel has room for, before its consumer first takes any, has in its
/// channel exactly its own descriptors, in the order in which it emitted
/// them; and each of them decodes to what was emitted.
pub proof fn lemma_drain_order_is_emission_order(
    cores: nat,
    capacity: nat,
    order: ByteOrder,
    steps: Seq<Step>,
    core: int,
)
    requires
        0 <= core < cores,
        undrained(steps, core),
        emitted_on(steps, core).len() <= capacity,
    ensures
        run(ChannelsState::fresh(cores, capacity, order), steps).channels[core].records == encoded(
            emitted_on(steps, core),
            order,
        ),
        forall|i: int| 0 <= i < emitted_on(steps, core).len() ==> wire_decoding(
            #[trigger] run(ChannelsState::fresh(cores, capacity, order), steps).channels[core].records[i],
            order,
        ) == Ok::<PacketLog, DecodeError>(emitted_on(steps, core)[i]),
{
    let state = ChannelsState::fresh(cores, capacity, order);
    let own = encoded(emitted_on(steps, core), order);
    lemma_each_core_fills_its_own(state, steps, core);
    lemma_overflow_keeps_oldest(state.channels[core], own);
    assert(state.channels[core].records + own =~= own);
    assert forall|i: int| 0 <= i < emitted_on(steps, core).len() implies wire_decoding(
        #[trigger] run(state, steps).channels[core].records[i],
        order,
    ) == Ok::<PacketLog, DecodeError>(emitted_on(steps, core)[i]) by {
        lemma_wire_round_trip(emitted_on(steps, core)[i], order);
    }
}

} // verus!
