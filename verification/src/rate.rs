//! Throughput from successive readings of a byte counter.
//!
//! A counter only ever counts up, and starts again from zero when it passes
//! the largest value it can hold. Times are readings of a monotonic clock in
//! nanoseconds.

use vstd::prelude::*;
use crate::ratio::{ceil_div, Ratio};

verus! {

/// Why no throughput can be given.
#[derive(Clone, Copy, Debug, PartialEq, Eq)]
pub enum RateError {
    /// No time has passed between the two readings.
    InvalidInterval,
}

/// How far a counter with largest value `max` has counted from the reading
/// `old` to the reading `new`, where it has started again at most once.
pub open spec fn counter_delta_spec(old: int, new: int, max: int) -> int {
    if new >= old {
        new - old
    } else {
        max - old + new
    }
}

/// A throughput in megabits per second, as the fraction of its two results:
/// `bytes` bytes in `nanos` nanoseconds are `bytes * 8000 / nanos` Mbit/s.
pub open spec fn mbps_spec(bytes: nat, nanos: nat) -> (int, int) {
    (bytes as int * 8000, nanos as int)
}

/// The throughput in whole megabits per second, rounded up.
pub open spec fn mbps_ceil_spec(bytes: nat, nanos: nat) -> int {
    ceil_div(bytes as int * 8000, nanos as int)
}

/// The numerator over `nanos` of the throughput on a linear scale from 0 to
/// 1000 Mbit/s: `mbps / 1000`, at most one.
pub open spec fn linear_num(bytes: nat, nanos: nat) -> nat {
    if 8 * bytes >= nanos {
        nanos
    } else {
        8 * bytes
    }
}

/// The distance from `old` to `new` on a counter that wraps after `max`.
pub fn counter_delta(old: u64, new: u64, max: u64) -> (delta: u64)
    requires
        old <= max,
        new <= max,
    ensures
        delta == counter_delta_spec(old as int, new as int, max as int),
        delta <= max,
{
    if new < old {
        max - old + new
    } else {
        new - old
    }
}

/// The bytes that passed in one interval, and the interval's length.
#[derive(Clone, Copy, Debug, PartialEq, Eq)]
pub struct NetSpeed {
    bytes: u64,
    nanos: u64,
}

impl View for NetSpeed {
    type V = (nat, nat);

    /// The bytes and the nanoseconds.
    closed spec fn view(&self) -> (nat, nat) {
        (self.bytes as nat, self.nanos as nat)
    }
}

impl NetSpeed {
    /// What holds of every `NetSpeed`: its interval is not empty.
    #[verifier::type_invariant]
    pub open spec fn wf(self) -> bool {
        0 < self@.1 <= u64::MAX && self@.0 <= u64::MAX
    }

    /// The throughput between the counter readings `old` and `new`, taken
    /// `nanos` nanoseconds apart. An empty interval has no throughput.
    pub fn from_bytes(nanos: u64, new: u64, old: u64) -> (r: Result<NetSpeed, RateError>)
        ensures
            nanos == 0 <==> r is Err,
            r matches Ok(s) ==> s.wf() && s@ == (
                counter_delta_spec(old as int, new as int, u64::MAX as int) as nat,
                nanos as nat,
            ),
            r matches Err(e) ==> e == RateError::InvalidInterval,
    {
        if nanos == 0 {
            return Err(RateError::InvalidInterval);
        }
        let bytes = counter_delta(old, new, u64::MAX);
        Ok(NetSpeed { bytes, nanos })
    }

    /// The bytes that passed.
    pub fn bytes(&self) -> (b: u64)
        ensures
            b == self@.0,
    {
        self.bytes
    }

    /// The length of the interval in nanoseconds.
    pub fn nanos(&self) -> (n: u64)
        ensures
            n == self@.1,
            n > 0,
    {
        proof {
            use_type_invariant(self);
        }
        self.nanos
    }

    /// The throughput in megabits per second, exact: the first result over
    /// the second.
    pub fn mbps(&self) -> (r: (u128, u64))
        ensures
            (r.0 as int, r.1 as int) == mbps_spec(self@.0, self@.1),
            r.1 > 0,
    {
        proof {
            use_type_invariant(self);
        }
        (self.bytes as u128 * 8000, self.nanos)
    }

    /// The throughput in whole megabits per second, rounded up.
    pub fn mbps_ceil(&self) -> (r: u128)
        ensures
            r == mbps_ceil_spec(self@.0, self@.1),
    {
        proof {
            use_type_invariant(self);
            crate::ratio::lemma_ceil_div(self.bytes as int * 8000, self.nanos as int);
            assert(mbps_ceil_spec(self@.0, self@.1) <= self.bytes * 8000 + self.nanos) by {
                vstd::arithmetic::div_mod::lemma_div_nonincreasing(
                    self.bytes as int * 8000 + self.nanos as int - 1,
                    self.nanos as int,
                );
            }
        }
        let scaled: u128 = self.bytes as u128 * 8000 + (self.nanos as u128 - 1);
        scaled / (self.nanos as u128)
    }

    /// The share of 1000 Mbit/s that the throughput is, at most one.
    pub fn linear_display(&self) -> (r: Ratio)
        ensures
            r.wf(),
            r@ == (linear_num(self@.0, self@.1), self@.1),
    {
        proof {
            use_type_invariant(self);
        }
        let bits: u128 = self.bytes as u128 * 8;
        let num: u64 = if bits >= self.nanos as u128 {
            self.nanos
        } else {
            bits as u64
        };
        Ratio::new(num, self.nanos).unwrap()
    }
}

/// The throughput of one interface in both directions over one interval.
#[derive(Clone, Copy, Debug, PartialEq, Eq)]
pub struct NetSpeeds {
    pub tx: NetSpeed,
    pub rx: NetSpeed,
}

/// The byte counters of one interface, read at `time`.
#[derive(Clone, Copy, Debug, PartialEq, Eq)]
pub struct NetSample {
    /// Nanoseconds on a monotonic clock.
    pub time: u64,
    pub rx_bytes: u64,
    pub tx_bytes: u64,
}

/// What `speeds` gives for a reading `now` that follows a reading `last`.
pub open spec fn speeds_holds(now: NetSample, last: NetSample, speeds: NetSpeeds) -> bool {
    &&& speeds.tx.wf()
    &&& speeds.rx.wf()
    &&& speeds.tx@ == (
        counter_delta_spec(last.tx_bytes as int, now.tx_bytes as int, u64::MAX as int) as nat,
        (now.time - last.time) as nat,
    )
    &&& speeds.rx@ == (
        counter_delta_spec(last.rx_bytes as int, now.rx_bytes as int, u64::MAX as int) as nat,
        (now.time - last.time) as nat,
    )
}

impl NetSample {
    /// The throughput since the reading `last`. The clock must have moved on
    /// since then.
    pub fn speeds(&self, last: &NetSample) -> (r: Result<NetSpeeds, RateError>)
        ensures
            self.time <= last.time <==> r is Err,
            r matches Ok(s) ==> speeds_holds(*self, *last, s),
            r matches Err(e) ==> e == RateError::InvalidInterval,
    {
        if self.time <= last.time {
            return Err(RateError::InvalidInterval);
        }
        let nanos = self.time - last.time;
        let tx = match NetSpeed::from_bytes(nanos, self.tx_bytes, last.tx_bytes) {
            Ok(s) => s,
            Err(e) => {
                return Err(e);
            },
        };
        let rx = match NetSpeed::from_bytes(nanos, self.rx_bytes, last.rx_bytes) {
            Ok(s) => s,
            Err(e) => {
                return Err(e);
            },
        };
        Ok(NetSpeeds { tx, rx })
    }
}

} // verus!
