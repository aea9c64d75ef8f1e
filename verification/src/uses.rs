//! Counters of limited uses (features, spell slots, hit dice).

use vstd::prelude::*;

verus! {

/// How a counter of uses is drawn.
#[derive(Clone, Copy, Debug, PartialEq, Eq, Structural)]
pub enum CounterStyle {
    /// Nothing is drawn (no uses).
    Hidden,
    /// One checkbox per use (up to five uses).
    Checkboxes,
    /// A number with buttons to change it (more than five uses).
    Numeric,
}

/// How a counter with `max_uses` uses is drawn.
pub fn counter_style(max_uses: i64) -> (r: CounterStyle)
    ensures
        r == if max_uses <= 0 {
            CounterStyle::Hidden
        } else if max_uses <= 5 {
            CounterStyle::Checkboxes
        } else {
            CounterStyle::Numeric
        },
{
    if max_uses <= 0 {
        CounterStyle::Hidden
    } else if max_uses <= 5 {
        CounterStyle::Checkboxes
    } else {
        CounterStyle::Numeric
    }
}

/// The spent uses after a change of `delta` (negative gives uses back): never below zero,
/// and no more than `i32::MAX`.
pub open spec fn spec_consume(consumed: int, delta: int) -> int {
    if consumed + delta < 0 {
        0
    } else if consumed + delta > i32::MAX {
        i32::MAX as int
    } else {
        consumed + delta
    }
}

/// The spent uses after spending (positive `delta`) or giving back (negative) uses.
pub fn consume_uses(consumed: u32, delta: i32) -> (r: u32)
    requires
        consumed <= i32::MAX,
    ensures
        r == spec_consume(consumed as int, delta as int),
{
    let total: i64 = consumed as i64 + delta as i64;
    if total < 0 {
        0
    } else if total > i32::MAX as i64 {
        i32::MAX as u32
    } else {
        total as u32
    }
}

/// Whether a use can be spent: fewer spent than the maximum.
pub fn can_use(consumed: u32, max_uses: u32) -> (r: bool)
    ensures
        r == (consumed < max_uses),
{
    consumed < max_uses
}

/// The uses left: the maximum less those spent, never below zero.
pub fn uses_remaining(max_uses: u32, consumed: u32) -> (r: u32)
    ensures
        r == if consumed > max_uses { 0 } else { max_uses - consumed },
{
    if consumed > max_uses { 0 } else { max_uses - consumed }
}

/// The uses left once a pending change of `delta` is applied: never below zero.
pub fn uses_remaining_after(max_uses: u32, consumed: u32, delta: i32) -> (r: u32)
    requires
        max_uses <= i32::MAX,
    ensures
        r == spec_consume(if consumed > max_uses { 0 } else { max_uses - consumed }, delta as int),
{
    let remaining = uses_remaining(max_uses, consumed);
    consume_uses(remaining, delta)
}

/// Whether the checkbox at `index` is ticked when `consumed` uses are spent and `pending`
/// more are chosen to be spent.
pub fn use_box_checked(index: u32, consumed: u32, pending: u32) -> (r: bool)
    ensures
        r == (index < consumed + pending),
{
    (index as u64) < consumed as u64 + pending as u64
}

/// Whether the checkbox at `index` is locked because that use is already spent.
pub fn use_box_locked(index: u32, consumed: u32) -> (r: bool)
    ensures
        r == (index < consumed),
{
    index < consumed
}

/// Whether one more use can be chosen to spend: fewer than the maximum are spent or chosen.
pub fn can_choose_more(consumed: u32, pending: u32, max_uses: u32) -> (r: bool)
    ensures
        r == (consumed + pending < max_uses),
{
    (consumed as u64 + pending as u64) < max_uses as u64
}

/// Spending uses and giving the same number back restores the tally, when nothing was clamped.
pub proof fn law_consume_round_trip(consumed: int, delta: int)
    requires
        0 <= consumed <= i32::MAX,
        0 <= consumed + delta <= i32::MAX,
    ensures
        spec_consume(spec_consume(consumed, delta), -delta) == consumed,
{
}

} // verus!
