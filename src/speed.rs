use vstd::prelude::*;

verus! {

/// Encoder ticks per ten centimetres of travel (61.5 ticks per cm).
pub const TICKS_PER_10_CM: u64 = 615;

/// Sampling period of the encoder counter, in milliseconds.
pub const SPEED_PERIOD_MS: u64 = 50;

/// Centimetres per hour for `ticks` counted over one period:
/// `ticks / (ticks_per_cm * period_s) * 3600`, rounded down.
pub open spec fn cm_per_hour_of(ticks: int) -> int {
    ticks * 10 * 3_600_000 / (TICKS_PER_10_CM * SPEED_PERIOD_MS)
}

/// Signed speed between two counter samples: the magnitude comes from the
/// absolute difference of the samples, the sign is positive only when the
/// counter went up.
pub open spec fn velocity_of(prev: u16, now: u16) -> int {
    let ticks = if now >= prev {
        now - prev
    } else {
        prev - now
    };
    if now > prev {
        cm_per_hour_of(ticks)
    } else {
        -cm_per_hour_of(ticks)
    }
}

/// Speed estimator over a quadrature counter sampled once per period.
pub struct SpeedEstimator {
    prev: u16,
}

impl SpeedEstimator {
    pub closed spec fn prev(&self) -> u16 {
        self.prev
    }

    /// Starts from a counter value of zero.
    pub fn new() -> (r: Self)
        ensures
            r.prev() == 0,
    {
        SpeedEstimator { prev: 0 }
    }

    /// Takes the counter value read this period and returns the speed in
    /// centimetres per hour (a hundred thousandth of a km/h).
    pub fn sample(&mut self, now: u16) -> (r: i64)
        ensures
            r == velocity_of(old(self).prev(), now),
            final(self).prev() == now,
    {
        let prev = self.prev;
        let ticks: u64 = if now >= prev {
            (now - prev) as u64
        } else {
            (prev - now) as u64
        };
        assert(ticks * 10 * 3_600_000 <= 0xffff * 36_000_000) by (nonlinear_arith)
            requires
                ticks <= 0xffff,
        ;
        let magnitude: u64 = ticks * 10 * 3_600_000 / (TICKS_PER_10_CM * SPEED_PERIOD_MS);
        self.prev = now;
        if now > prev {
            magnitude as i64
        } else {
            -(magnitude as i64)
        }
    }
}

} // verus!
