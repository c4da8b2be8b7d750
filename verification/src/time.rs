use vstd::prelude::*;

verus! {

/// A simulation time as the simulator exchanges it: a 64-bit count of
/// simulation ticks split in two 32-bit halves.
#[derive(Debug, Clone, Copy, PartialEq, Eq)]
pub struct VpiTime {
    pub high: u32,
    pub low: u32,
}

/// The number of ticks that the two halves stand for.
pub open spec fn time_value(high: u32, low: u32) -> nat {
    (high as nat) * 0x1_0000_0000 + low as nat
}

impl VpiTime {
    /// Splits a delay in ticks into the halves that the simulator takes.
    pub fn from_ticks(ticks: u64) -> (r: VpiTime)
        ensures
            time_value(r.high, r.low) == ticks,
            r.high == ticks / 0x1_0000_0000,
            r.low == ticks % 0x1_0000_0000,
    {
        let high: u32 = (ticks >> 32) as u32;
        let low: u32 = (ticks & ((!0u64) >> 32)) as u32;
        assert(high == ticks / 0x1_0000_0000 && low == ticks % 0x1_0000_0000) by (bit_vector)
            requires
                high == (ticks >> 32u64) as u32,
                low == (ticks & ((!0u64) >> 32u64)) as u32,
        ;
        VpiTime { high, low }
    }

    /// The number of ticks that the time stands for.
    pub fn ticks(&self) -> (r: u64)
        ensures
            r == time_value(self.high, self.low),
    {
        let high = self.high;
        let low = self.low;
        let mut result: u64 = high as u64;
        result = result << 32;
        result = result | low as u64;
        assert(result == (high as u64) * 0x1_0000_0000u64 + (low as u64)) by (bit_vector)
            requires
                result == ((high as u64) << 32u64) | (low as u64),
        ;
        result
    }
}

/// Joining the halves of a time and splitting the result again gives the
/// same halves, and splitting a number of ticks and joining the halves
/// again gives the same number.
pub proof fn law_ticks_round_trip(t: VpiTime, ticks: u64)
    ensures
        time_value(t.high, t.low) <= u64::MAX,
        time_value(t.high, t.low) / 0x1_0000_0000 == t.high,
        time_value(t.high, t.low) % 0x1_0000_0000 == t.low,
        time_value((ticks / 0x1_0000_0000) as u32, (ticks % 0x1_0000_0000) as u32) == ticks,
{
}

} // verus!
