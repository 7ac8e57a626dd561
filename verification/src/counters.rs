//! The counters: bytes written to disk and bytes read from disk.
//!
//! Whether a set of counters counts at all is settled at compile time, by the
//! parameter `ENABLED`. Where it is `false`, recording and [`reset`] do
//! nothing and [`snapshot`] is `None`, so that a build without the counters
//! behaves as if the calls were not there.

use vstd::prelude::*;

verus! {

/// The two running totals. A total that would pass `u64::MAX` wraps around.
pub struct Counters<const ENABLED: bool> {
    written: u64,
    read: u64,
}

/// What can be done to a set of counters.
pub enum Event {
    /// That many bytes were written to disk.
    Written(u64),
    /// That many bytes were read from disk.
    Read(u64),
    /// Both totals went back to zero.
    Reset,
}

/// A number of bytes as a 64-bit counter shows it.
pub open spec fn wrapped(bytes: int) -> u64 {
    (bytes % (u64::MAX + 1)) as u64
}

/// The counts of counters to which nothing has happened: two zeros where they
/// are compiled in, nothing where they are not.
pub open spec fn fresh(enabled: bool) -> Option<(u64, u64)> {
    if enabled {
        Some((0, 0))
    } else {
        None
    }
}

/// The `(written, read)` counts after `event`, from those before it.
pub open spec fn after(counts: Option<(u64, u64)>, event: Event) -> Option<(u64, u64)> {
    match (counts, event) {
        (None, _) => None,
        (Some((written, read)), Event::Written(n)) => Some((wrapped(written + n), read)),
        (Some((written, read)), Event::Read(n)) => Some((written, wrapped(read + n))),
        (Some(_), Event::Reset) => Some((0, 0)),
    }
}

impl<const ENABLED: bool> View for Counters<ENABLED> {
    type V = Option<(u64, u64)>;

    /// The `(written, read)` counts; `None` where the counters are compiled out.
    closed spec fn view(&self) -> Option<(u64, u64)> {
        if ENABLED {
            Some((self.written, self.read))
        } else {
            None
        }
    }
}

impl<const ENABLED: bool> Counters<ENABLED> {
    /// Counters at zero.
    pub fn new() -> (counters: Self)
        ensures
            counters@ == fresh(ENABLED),
            ENABLED ==> counters@ == Some((0u64, 0u64)),
            !ENABLED ==> counters@ is None,
    {
        Counters { written: 0, read: 0 }
    }
}

/// Records `n` bytes written to disk by the chunk IO path. No-op where the
/// counters are compiled out.
pub fn add_written<const ENABLED: bool>(counters: &mut Counters<ENABLED>, n: u64)
    ensures
        final(counters)@ == after(old(counters)@, Event::Written(n)),
        old(counters)@ matches Some((written, read)) ==> final(counters)@ == Some(
            (written.wrapping_add(n), read),
        ),
        !ENABLED ==> *final(counters) == *old(counters),
{
    if ENABLED {
        counters.written = counters.written.wrapping_add(n);
    }
}

/// Records `n` bytes read from disk by the chunk IO path. No-op where the
/// counters are compiled out.
pub fn add_read<const ENABLED: bool>(counters: &mut Counters<ENABLED>, n: u64)
    ensures
        final(counters)@ == after(old(counters)@, Event::Read(n)),
        old(counters)@ matches Some((written, read)) ==> final(counters)@ == Some(
            (written, read.wrapping_add(n)),
        ),
        !ENABLED ==> *final(counters) == *old(counters),
{
    if ENABLED {
        counters.read = counters.read.wrapping_add(n);
    }
}

/// Resets both counters to zero. No-op where the counters are compiled out.
pub fn reset<const ENABLED: bool>(counters: &mut Counters<ENABLED>)
    ensures
        final(counters)@ == after(old(counters)@, Event::Reset),
        final(counters)@ == fresh(ENABLED),
        ENABLED ==> final(counters)@ == Some((0u64, 0u64)),
        !ENABLED ==> *final(counters) == *old(counters),
{
    if ENABLED {
        counters.written = 0;
        counters.read = 0;
    }
}

/// `(written, read)` bytes since the last [`reset`]; `None` where the counters
/// are compiled out.
#[must_use]
pub fn snapshot<const ENABLED: bool>(counters: &Counters<ENABLED>) -> (counts: Option<(u64, u64)>)
    ensures
        counts == counters@,
        counts is Some <==> ENABLED,
{
    if ENABLED {
        Some((counters.written, counters.read))
    } else {
        None
    }
}

/// Counters have counts exactly where they are compiled in, whatever has
/// happened to them.
pub proof fn law_counts_iff_enabled<const ENABLED: bool>(counters: &Counters<ENABLED>)
    ensures
        counters@ is Some <==> ENABLED,
{
}

/// A write moves the written count on by its bytes, short of whole turns of the
/// counter, and the read count not at all.
pub proof fn law_write_moves_written(written: u64, read: u64, n: u64)
    ensures
        after(Some((written, read)), Event::Written(n)) matches Some((later, same)) && same == read
            && (later == written + n || later == written + n - u64::MAX - 1),
{
}

/// A read moves the read count on by its bytes, short of whole turns of the
/// counter, and the written count not at all.
pub proof fn law_read_moves_read(written: u64, read: u64, n: u64)
    ensures
        after(Some((written, read)), Event::Read(n)) matches Some((same, later)) && same == written
            && (later == read + n || later == read + n - u64::MAX - 1),
{
}

/// After a reset both counts are zero, whatever they were, and counters fresh
/// from the start cannot be told from counters just reset.
pub proof fn law_reset_clears_both(written: u64, read: u64)
    ensures
        after(Some((written, read)), Event::Reset) == Some((0u64, 0u64)),
        fresh(true) == after(Some((written, read)), Event::Reset),
{
}

/// Counters that are compiled out start without counts, and no event gives
/// them any.
pub proof fn law_no_event_gives_counts(event: Event)
    ensures
        fresh(false) is None,
        after(None, event) is None,
{
}

} // verus!
