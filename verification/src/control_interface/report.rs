//! When a link reports about itself, and what it keeps for that.
use vstd::prelude::*;

verus! {

/// How often a link is summed up, in nanoseconds.
pub const SUMMARY_INTERVAL_NS: u64 = 1_000_000_000;

/// Whether at least `gap` passed between `then` and `now`; so too where there
/// was no `then`.
pub open spec fn is_due(then: Option<u64>, now: u64, gap: u64) -> bool {
    match then {
        Some(t) => t + gap <= now,
        None => true,
    }
}

/// Whether at least `gap` passed between `then` and `now`.
pub fn due(then: Option<u64>, now: u64, gap: u64) -> (r: bool)
    ensures
        r == is_due(then, now, gap),
{
    match then {
        Some(t) => now >= t && now - t >= gap,
        None => true,
    }
}

/// The greater of a peak and the magnitude of a number. Both are the bits of
/// singles: those of numbers that are not negative are ordered as integers are,
/// up to infinity, and what is no number exceeds nothing.
pub open spec fn peak_with(peak: u32, bits: u32) -> u32 {
    let magnitude = (bits % 0x8000_0000) as u32;
    if peak < magnitude <= 0x7F80_0000 {
        magnitude
    } else {
        peak
    }
}

/// The greatest of a peak and the magnitudes of numbers.
pub open spec fn peak_over(peak: u32, numbers: Seq<u32>) -> u32
    decreases numbers.len(),
{
    if numbers.len() == 0 {
        peak
    } else {
        peak_with(peak_over(peak, numbers.drop_last()), numbers.last())
    }
}

/// The greater of a peak and the magnitude of a number.
pub fn raise_peak(peak: u32, bits: u32) -> (r: u32)
    ensures
        r == peak_with(peak, bits),
{
    let magnitude = bits % 0x8000_0000;
    if peak < magnitude && magnitude <= 0x7F80_0000 {
        magnitude
    } else {
        peak
    }
}

/// A peak exceeds nothing that it was taken over, and is one of those.
pub proof fn peaks_are_reached(peak: u32, numbers: Seq<u32>)
    ensures
        peak <= peak_over(peak, numbers),
        forall|i: int|
            0 <= i < numbers.len() ==> (#[trigger] numbers[i] % 0x8000_0000 <= 0x7F80_0000
                ==> numbers[i] % 0x8000_0000 <= peak_over(peak, numbers)),
        peak_over(peak, numbers) == peak || exists|i: int|
            0 <= i < numbers.len() && #[trigger] numbers[i] % 0x8000_0000 == peak_over(
                peak,
                numbers,
            ),
    decreases numbers.len(),
{
    if numbers.len() > 0 {
        let rest = numbers.drop_last();
        let n = numbers.len() - 1;
        peaks_are_reached(peak, rest);
        assert forall|i: int| 0 <= i < n implies #[trigger] numbers[i] == rest[i] by {}
        assert(numbers[n] == numbers.last());
        if peak_over(peak, numbers) == peak_over(peak, rest) && peak_over(peak, rest) != peak {
            let i = choose|i: int|
                0 <= i < rest.len() && #[trigger] rest[i] % 0x8000_0000 == peak_over(peak, rest);
            assert(numbers[i] == rest[i]);
        }
    }
}

/// Something is due at first, and then once at least the gap has passed.
pub proof fn reports_keep_their_gap(then: u64, now: u64, gap: u64)
    ensures
        is_due(None, now, gap),
        is_due(Some(then), now, gap) <==> now - then >= gap,
{
}

/// A peak is raised by a number of a greater magnitude, to that magnitude, and by
/// nothing else: neither by a lesser one nor by what is no number.
pub proof fn peaks_are_raised_by_what_exceeds_them(peak: u32, bits: u32)
    ensures
        bits % 0x8000_0000 <= 0x7F80_0000 && peak < bits % 0x8000_0000 ==> peak_with(peak, bits)
            == bits % 0x8000_0000,
        bits % 0x8000_0000 > 0x7F80_0000 || peak >= bits % 0x8000_0000 ==> peak_with(peak, bits)
            == peak,
{
}

} // verus!
