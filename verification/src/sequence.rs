//! Clipboard sequence tracking.
use vstd::prelude::*;

verus! {

/// The clipboard sequence counter of a process.
#[derive(Debug)]
pub struct SequenceCounter {
    value: u32,
}

impl View for SequenceCounter {
    type V = u32;

    closed spec fn view(&self) -> u32 {
        self.value
    }
}

impl SequenceCounter {
    /// A counter as it stands when the process starts.
    pub fn new() -> (counter: SequenceCounter)
        ensures
            counter@ == 1,
    {
        SequenceCounter { value: 1 }
    }
}

/// The sequence value that follows `value`: one more, and 0 after the largest.
pub open spec fn next_sequence(value: u32) -> u32 {
    if value == u32::MAX {
        0
    } else {
        (value + 1) as u32
    }
}

/// Current sequence value (does not increment).
pub fn sequence_number(counter: &SequenceCounter) -> (value: u32)
    ensures
        value == counter@,
{
    counter.value
}

/// Advance the sequence and return the new value. After the largest value the sequence goes
/// on at 0.
pub fn bump_sequence_number(counter: &mut SequenceCounter) -> (value: u32)
    ensures
        final(counter)@ == next_sequence(old(counter)@),
        value == final(counter)@,
{
    counter.value = counter.value.wrapping_add(1);
    counter.value
}

/// The sequence value after `count` bumps of a counter that stands at `value`.
pub open spec fn sequence_after(value: u32, count: nat) -> u32
    decreases count,
{
    if count == 0 {
        value
    } else {
        next_sequence(sequence_after(value, (count - 1) as nat))
    }
}

/// A bump always changes the value, and makes it larger unless it wraps.
pub proof fn law_bump_moves_on(value: u32)
    ensures
        next_sequence(value) != value,
        value < u32::MAX ==> next_sequence(value) > value,
{
}

/// The numbers go up by one each time, modulo 2^32.
pub proof fn law_sequence_counts(value: u32, count: nat)
    ensures
        next_sequence(value) == (value + 1) % 0x1_0000_0000,
        sequence_after(value, count) == (value + count) % 0x1_0000_0000,
{
    lemma_sequence_after(value, count);
}

/// No two of the values that fewer than 2^32 bumps pass through are the same, so an echo
/// is recognised by its number alone.
pub proof fn law_sequence_values_are_distinct(value: u32, first: nat, second: nat)
    requires
        first < second,
        second - first <= u32::MAX,
    ensures
        sequence_after(value, first) != sequence_after(value, second),
{
    lemma_sequence_after(value, first);
    lemma_sequence_after(value, second);
    let base: int = value + first;
    let gap: int = second - first;
    assert(base % 0x1_0000_0000 != (base + gap) % 0x1_0000_0000);
}

proof fn lemma_sequence_after(value: u32, count: nat)
    ensures
        sequence_after(value, count) == (value + count) % 0x1_0000_0000,
    decreases count,
{
    if count > 0 {
        lemma_sequence_after(value, (count - 1) as nat);
    }
}

} // verus!
