//! What the counters hold after any run of operations.
//!
//! Operations on one set of counters happen one after another, whichever
//! threads they come from. The laws here are stated over that run of events.

use crate::counters::{after, fresh, wrapped, Event};
use vstd::prelude::*;
use vstd::seq_lib::lemma_fold_left_permutation;

verus! {

/// The counts after all of `events`, in their order, from those before them.
pub open spec fn replay(counts: Option<(u64, u64)>, events: Seq<Event>) -> Option<(u64, u64)>
    decreases events.len(),
{
    if events.len() == 0 {
        counts
    } else {
        after(replay(counts, events.drop_last()), events.last())
    }
}

/// The events behind the last reset; all of them where there was none.
pub open spec fn since_reset(events: Seq<Event>) -> Seq<Event>
    decreases events.len(),
{
    if events.len() == 0 || events.last() is Reset {
        Seq::empty()
    } else {
        since_reset(events.drop_last()).push(events.last())
    }
}

/// The bytes that `event` says were written.
pub open spec fn written_by(event: Event) -> nat {
    match event {
        Event::Written(n) => n as nat,
        _ => 0,
    }
}

/// The bytes that `event` says were read.
pub open spec fn read_by(event: Event) -> nat {
    match event {
        Event::Read(n) => n as nat,
        _ => 0,
    }
}

/// All bytes written in `events`.
pub open spec fn bytes_written(events: Seq<Event>) -> nat {
    events.fold_left(0, |total: nat, event: Event| total + written_by(event))
}

/// All bytes read in `events`.
pub open spec fn bytes_read(events: Seq<Event>) -> nat {
    events.fold_left(0, |total: nat, event: Event| total + read_by(event))
}

/// Wrapping a running total at each step shows the same as wrapping it once.
proof fn lemma_wrapped_steps(bytes: int, n: int)
    ensures
        wrapped(wrapped(bytes) + n) == wrapped(bytes + n),
{
}

/// One event more adds its bytes to both sums.
proof fn lemma_sums_push(events: Seq<Event>, event: Event)
    ensures
        bytes_written(events.push(event)) == bytes_written(events) + written_by(event),
        bytes_read(events.push(event)) == bytes_read(events) + read_by(event),
{
    assert(events.push(event).drop_last() == events);
}


/// Both totals are the bytes recorded since the last reset, on top of what the
/// counters started from where there was no reset, and wrap around at 64 bits.
/// Each total depends on its own kind of transfer alone.
pub proof fn law_totals_since_reset(written: u64, read: u64, events: Seq<Event>)
    ensures
        ({
            let since = since_reset(events);
            replay(Some((written, read)), events) == if events.contains(Event::Reset) {
                Some((wrapped(bytes_written(since) as int), wrapped(bytes_read(since) as int)))
            } else {
                Some(
                    (
                        wrapped(written + bytes_written(since)),
                        wrapped(read + bytes_read(since)),
                    ),
                )
            }
        }),
    decreases events.len(),
{
    if events.len() > 0 {
        let earlier = events.drop_last();
        let event = events.last();
        law_totals_since_reset(written, read, earlier);
        assert(events == earlier.push(event));
        assert(events.contains(Event::Reset) <==> earlier.contains(Event::Reset) || event
            == Event::Reset) by {
            if earlier.contains(Event::Reset) {
                let i = earlier.index_of(Event::Reset);
                assert(events[i] == Event::Reset);
            }
            if event == Event::Reset {
                assert(events[events.len() - 1] == Event::Reset);
            }
        }
        if !(event is Reset) {
            let since = since_reset(earlier);
            let (written_base, read_base): (int, int) = if earlier.contains(Event::Reset) {
                (0, 0)
            } else {
                (written as int, read as int)
            };
            lemma_sums_push(since, event);
            lemma_wrapped_steps(written_base + bytes_written(since), written_by(event) as int);
            lemma_wrapped_steps(read_base + bytes_read(since), read_by(event) as int);
        }
    }
}

/// While the bytes since the last reset fit in 64 bits, fresh counters show
/// them exactly.
pub proof fn law_totals_exact(events: Seq<Event>)
    requires
        bytes_written(since_reset(events)) <= u64::MAX,
        bytes_read(since_reset(events)) <= u64::MAX,
    ensures
        replay(fresh(true), events) == Some(
            (
                bytes_written(since_reset(events)) as u64,
                bytes_read(since_reset(events)) as u64,
            ),
        ),
{
    law_totals_since_reset(0, 0, events);
}

/// The order in which transfers are recorded does not show: runs that recorded
/// the same transfers since the last reset leave the same counts.
pub proof fn law_order_does_not_show(
    counts: Option<(u64, u64)>,
    first: Seq<Event>,
    second: Seq<Event>,
)
    requires
        first.contains(Event::Reset) == second.contains(Event::Reset),
        since_reset(first).to_multiset() == since_reset(second).to_multiset(),
    ensures
        replay(counts, first) == replay(counts, second),
{
    match counts {
        None => {
            law_compiled_out(first);
            law_compiled_out(second);
        },
        Some((written, read)) => {
            law_totals_since_reset(written, read, first);
            law_totals_since_reset(written, read, second);
            lemma_fold_left_permutation(
                since_reset(first),
                since_reset(second),
                |total: nat, event: Event| total + written_by(event),
                0,
            );
            lemma_fold_left_permutation(
                since_reset(first),
                since_reset(second),
                |total: nat, event: Event| total + read_by(event),
                0,
            );
        },
    }
}

/// A transfer recorded in two parts shows as one recorded whole.
pub proof fn law_parts_add_up(counts: Option<(u64, u64)>, n: u64, m: u64)
    ensures
        after(after(counts, Event::Written(n)), Event::Written(m)) == after(
            counts,
            Event::Written(wrapped(n + m)),
        ),
        after(after(counts, Event::Read(n)), Event::Read(m)) == after(
            counts,
            Event::Read(wrapped(n + m)),
        ),
{
    if let Some((written, read)) = counts {
        lemma_wrapped_steps(written + n, m as int);
        lemma_wrapped_steps(n + m, written as int);
        lemma_wrapped_steps(read + n, m as int);
        lemma_wrapped_steps(n + m, read as int);
    }
}

/// A run of events is the first part of it followed by the rest.
pub proof fn law_runs_compose(counts: Option<(u64, u64)>, first: Seq<Event>, second: Seq<Event>)
    ensures
        replay(counts, first + second) == replay(replay(counts, first), second),
    decreases second.len(),
{
    if second.len() == 0 {
        assert(first + second == first);
    } else {
        law_runs_compose(counts, first, second.drop_last());
        assert((first + second).drop_last() == first + second.drop_last());
    }
}

/// Nothing that came before a reset shows after it: the counts are those of
/// fresh counters to which only the later events happened.
pub proof fn law_reset_forgets(
    counts: Option<(u64, u64)>,
    before: Seq<Event>,
    events: Seq<Event>,
)
    ensures
        replay(counts, before.push(Event::Reset) + events) == replay(
            fresh(counts is Some),
            events,
        ),
{
    law_runs_compose(counts, before.push(Event::Reset), events);
    assert(before.push(Event::Reset).drop_last() == before);
    match counts {
        Some((written, read)) => law_totals_since_reset(written, read, before),
        None => law_compiled_out(before),
    }
}

/// Counters that are compiled out have no counts, whatever happens.
pub proof fn law_compiled_out(events: Seq<Event>)
    ensures
        replay(fresh(false), events) == fresh(false),
    decreases events.len(),
{
    if events.len() > 0 {
        law_compiled_out(events.drop_last());
    }
}

} // verus!
