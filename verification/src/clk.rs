use vstd::prelude::*;

use crate::error::VpiError;

verus! {

/// Clock: the level of a one-bit net.
#[derive(Clone, Copy, Debug, PartialEq, Eq)]
pub struct Clk {
    value: bool,
}

impl View for Clk {
    type V = bool;

    /// Whether the clock is high.
    closed spec fn view(&self) -> bool {
        self.value
    }
}

/// The timing of a started clock: it rises first after `delay` ticks, then
/// stays high for `high` ticks and low for `low` ticks, over and over.
#[derive(Clone, Copy, Debug, PartialEq, Eq)]
pub struct ClkSchedule {
    pub delay: u64,
    pub low: u64,
    pub high: u64,
}

impl Clk {
    /// A clock at the given level.
    pub fn new(value: bool) -> (r: Clk)
        ensures
            r@ == value,
    {
        Clk { value }
    }

    /// Whether the clock is high.
    pub fn is_high(&self) -> (r: bool)
        ensures
            r == self@,
    {
        self.value
    }

    /// Reads a clock from a net of `size` bits whose integer value is
    /// `integer`: the net must be one bit wide, and any value but 0 is high.
    pub fn from_vpi_integer(size: usize, integer: i32) -> (r: Result<Clk, VpiError>)
        ensures
            r is Ok <==> size == 1,
            r matches Ok(c) ==> c@ == (integer != 0),
            r matches Err(e) ==> e == (VpiError::BitVectorLengthMissMatch {
                expected: 1,
                actual: size,
            }),
    {
        if size != 1 {
            return Err(VpiError::BitVectorLengthMissMatch { expected: 1, actual: size });
        }
        Ok(Clk { value: integer != 0 })
    }

    /// The integer that the clock writes to its net: 1 when high, 0 when
    /// low.
    pub fn to_vpi_integer(&self) -> (r: i32)
        ensures
            r == (if self@ {
                1i32
            } else {
                0i32
            }),
    {
        if self.value {
            1
        } else {
            0
        }
    }

    /// Plans a clock of the given period that starts after `delay` ticks.
    /// The low phase lasts half the period, rounded down, and the high
    /// phase the rest. A period under 2 ticks is refused.
    pub fn start(period: u64, delay: u64) -> (r: Result<ClkSchedule, VpiError>)
        ensures
            r is Err <==> period < 2,
            r matches Err(e) ==> e == VpiError::PeriodTooSmall,
            r matches Ok(s) ==> {
                &&& s.delay == delay
                &&& s.low == period / 2
                &&& s.high == period - period / 2
            },
    {
        if period < 2 {
            return Err(VpiError::PeriodTooSmall);
        }
        let low = period / 2;
        let high = period - low;
        Ok(ClkSchedule { delay, low, high })
    }
}

impl ClkSchedule {
    /// The rising edge: the clock goes high, and the falling edge comes
    /// after the returned number of ticks.
    pub fn to_high(&self, clk: &mut Clk) -> (next: u64)
        ensures
            final(clk)@ == true,
            next == self.high,
    {
        clk.value = true;
        self.high
    }

    /// The falling edge: the clock goes low, and the rising edge comes
    /// after the returned number of ticks.
    pub fn to_low(&self, clk: &mut Clk) -> (next: u64)
        ensures
            final(clk)@ == false,
            next == self.low,
    {
        clk.value = false;
        self.low
    }
}

/// A started clock has the period it was started with: one high phase and
/// one low phase together last `period` ticks, each phase lasts at least
/// one tick, and the high phase is at most one tick longer than the low.
pub proof fn law_clock_period(period: u64, delay: u64, s: ClkSchedule)
    requires
        period >= 2,
        s.delay == delay,
        s.low == period / 2,
        s.high == period - period / 2,
    ensures
        s.high + s.low == period,
        s.low >= 1,
        s.low <= s.high <= s.low + 1,
{
}

/// A clock read back from the integer that it writes, on a one-bit net, is
/// at the same level.
pub proof fn law_clock_integer_round_trip(c: Clk)
    ensures
        ((if c@ {
            1i32
        } else {
            0i32
        }) != 0) == c@,
{
}

/// The wait before edge `j` of a started clock: `delay` before the first
/// edge; after a rising edge the high phase, after a falling edge the low
/// phase (what `ClkSchedule::to_high` and `ClkSchedule::to_low` return).
pub open spec fn edge_wait(s: ClkSchedule, j: nat) -> int {
    if j == 0 {
        s.delay as int
    } else if (j - 1) % 2 == 0 {
        s.high as int
    } else {
        s.low as int
    }
}

/// The time of edge `j` of a started clock, counted from when it was
/// started: the sum of the waits before edges `0` to `j`.
pub open spec fn edge_time(s: ClkSchedule, j: nat) -> int
    decreases j,
{
    if j == 0 {
        edge_wait(s, 0)
    } else {
        edge_time(s, (j - 1) as nat) + edge_wait(s, j)
    }
}

/// Edge `j` of a started clock is a rising edge (`to_high`) when `j` is
/// even, a falling edge (`to_low`) when it is odd.
pub open spec fn edge_rises(j: nat) -> bool {
    j % 2 == 0
}

/// The timeline of a started clock: for every `k`, the clock rises at
/// `delay + k * period` and falls at `delay + k * period + high`, counted
/// from when it was started.
pub proof fn law_clock_timeline(period: u64, s: ClkSchedule, k: nat)
    requires
        period >= 2,
        s.low == period / 2,
        s.high == period - period / 2,
    ensures
        edge_rises(2 * k),
        !edge_rises(2 * k + 1),
        edge_time(s, 2 * k) == s.delay + k * period,
        edge_time(s, 2 * k + 1) == s.delay + k * period + s.high,
    decreases k,
{
    if k == 0 {
        assert(edge_time(s, 1) == edge_time(s, 0) + edge_wait(s, 1));
    } else {
        law_clock_timeline(period, s, (k - 1) as nat);
        let j = (2 * k) as nat;
        assert(edge_time(s, j) == edge_time(s, (j - 1) as nat) + edge_wait(s, j));
        assert(edge_wait(s, j) == s.low);
        assert(edge_time(s, j + 1) == edge_time(s, j) + edge_wait(s, j + 1));
        assert(edge_wait(s, j + 1) == s.high);
        assert((k - 1) * period + period == k * period) by (nonlinear_arith);
    }
}

} // verus!
