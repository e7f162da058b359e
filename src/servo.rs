use vstd::prelude::*;
use vstd::arithmetic::div_mod::lemma_div_is_ordered;
use vstd::arithmetic::mul::lemma_mul_inequality;

verus! {

pub open spec fn clamp_percent(percent: i8) -> int {
    if percent < -100 {
        -100
    } else if percent > 100 {
        100
    } else {
        percent as int
    }
}

/// Half the pulse range, `(max - min) / 2`, in nanoseconds.
pub open spec fn half_range(min_ns: u64, max_ns: u64) -> int {
    (max_ns - min_ns) / 2
}

/// Centre pulse width, `min + half`, in nanoseconds.
pub open spec fn center_ns(min_ns: u64, max_ns: u64) -> int {
    min_ns + half_range(min_ns, max_ns)
}

/// A hundred times the pulse width for `percent`:
/// `100 * (center + percent / 100 * half)`, exact and never negative.
pub open spec fn pulse_x100(min_ns: u64, max_ns: u64, percent: i8) -> int {
    100 * center_ns(min_ns, max_ns) + clamp_percent(percent) * half_range(min_ns, max_ns)
}

/// Length of one duty step: the PWM period split into `max_duty` steps.
pub open spec fn tick_ns(period_ns: u64, max_duty: u32) -> int {
    (period_ns as int) / (max_duty as int)
}

/// Duty value for `percent`: the pulse width `center + percent / 100 * half`
/// divided by the tick, rounded down.
pub open spec fn duty_of(period_ns: u64, min_ns: u64, max_ns: u64, max_duty: u32, percent: i8) -> int {
    pulse_x100(min_ns, max_ns, percent) / (100 * tick_ns(period_ns, max_duty))
}

pub open spec fn config_valid(period_ns: u64, min_ns: u64, max_ns: u64, max_duty: u32) -> bool {
    &&& min_ns <= max_ns
    &&& 0 < max_duty
    &&& max_duty <= period_ns
}

/// Maps a steering command in percent to a PWM duty value between the pulse
/// widths `min_ns` and `max_ns`.
pub struct Servo {
    period_ns: u64,
    min_ns: u64,
    max_ns: u64,
    max_duty: u32,
    duty: u64,
    enabled: bool,
}

impl Servo {
    pub closed spec fn period_ns(&self) -> u64 {
        self.period_ns
    }

    pub closed spec fn min_ns(&self) -> u64 {
        self.min_ns
    }

    pub closed spec fn max_ns(&self) -> u64 {
        self.max_ns
    }

    pub closed spec fn max_duty(&self) -> u32 {
        self.max_duty
    }

    /// Duty value last computed, the one the PWM output should hold.
    pub closed spec fn duty(&self) -> u64 {
        self.duty
    }

    pub closed spec fn enabled(&self) -> bool {
        self.enabled
    }

    pub open spec fn wf(&self) -> bool {
        config_valid(self.period_ns(), self.min_ns(), self.max_ns(), self.max_duty())
    }

    /// A servo commanded to 0% with its output enabled.
    pub fn new(period_ns: u64, min_ns: u64, max_ns: u64, max_duty: u32) -> (r: Servo)
        requires
            config_valid(period_ns, min_ns, max_ns, max_duty),
        ensures
            r.wf(),
            r.period_ns() == period_ns,
            r.min_ns() == min_ns,
            r.max_ns() == max_ns,
            r.max_duty() == max_duty,
            r.duty() == duty_of(period_ns, min_ns, max_ns, max_duty, 0),
            r.enabled(),
    {
        let mut servo = Servo { period_ns, min_ns, max_ns, max_duty, duty: 0, enabled: false };
        servo.set(0);
        servo.enable();
        servo
    }

    /// Switches the output on.
    pub fn enable(&mut self)
        ensures
            final(self).enabled(),
            final(self).period_ns() == old(self).period_ns(),
            final(self).min_ns() == old(self).min_ns(),
            final(self).max_ns() == old(self).max_ns(),
            final(self).max_duty() == old(self).max_duty(),
            final(self).duty() == old(self).duty(),
    {
        self.enabled = true;
    }

    /// Commands `percent` (clamped to -100..=100) and returns the duty value
    /// to write to the PWM channel.
    pub fn set(&mut self, percent: i8) -> (r: u64)
        requires
            old(self).wf(),
        ensures
            r == duty_of(
                old(self).period_ns(),
                old(self).min_ns(),
                old(self).max_ns(),
                old(self).max_duty(),
                percent,
            ),
            final(self).duty() == r,
            final(self).period_ns() == old(self).period_ns(),
            final(self).min_ns() == old(self).min_ns(),
            final(self).max_ns() == old(self).max_ns(),
            final(self).max_duty() == old(self).max_duty(),
            final(self).enabled() == old(self).enabled(),
    {
        let p: i8 = if percent < -100 {
            -100
        } else if percent > 100 {
            100
        } else {
            percent
        };
        let tick: u64 = self.period_ns / (self.max_duty as u64);
        let half: u64 = (self.max_ns - self.min_ns) / 2;
        let center: u64 = self.min_ns + half;
        let magnitude: u128 = if p >= 0 {
            p as u128
        } else {
            (-(p as i16)) as u128
        };
        proof {
            lemma_div_is_ordered(self.max_duty as int, self.period_ns as int, self.max_duty as int);
            vstd::arithmetic::div_mod::lemma_div_by_multiple(1, self.max_duty as int);
            assert(magnitude * half <= 100 * half) by (nonlinear_arith)
                requires
                    magnitude <= 100,
                    half >= 0,
            ;
            assert(clamp_percent(percent) * half == if p >= 0 {
                magnitude * half
            } else {
                -(magnitude * half)
            }) by (nonlinear_arith)
                requires
                    clamp_percent(percent) == p,
                    p >= 0 ==> magnitude == p,
                    p < 0 ==> magnitude == -p,
            ;
        }
        let scaled_center: u128 = 100 * (center as u128);
        let spread: u128 = magnitude * (half as u128);
        let pulse: u128 = if p >= 0 {
            scaled_center + spread
        } else {
            scaled_center - spread
        };
        let divisor: u128 = 100 * (tick as u128);
        proof {
            assert(pulse <= 100 * (self.max_ns as int));
            vstd::arithmetic::div_mod::lemma_div_is_ordered_by_denominator(
                pulse as int,
                100,
                divisor as int,
            );
            lemma_div_is_ordered(pulse as int, 100 * (self.max_ns as int), 100);
            vstd::arithmetic::div_mod::lemma_div_by_multiple(self.max_ns as int, 100);
            assert(100 * (self.max_ns as int) == (self.max_ns as int) * 100) by (nonlinear_arith);
        }
        let duty: u64 = (pulse / divisor) as u64;
        self.duty = duty;
        duty
    }
}

/// The duty value never decreases as the command grows, a command of 0 gives
/// the center pulse width, and commands beyond either end give the same duty
/// as the end itself.
pub proof fn lemma_servo_mapping(
    period_ns: u64,
    min_ns: u64,
    max_ns: u64,
    max_duty: u32,
    lower: i8,
    higher: i8,
)
    requires
        config_valid(period_ns, min_ns, max_ns, max_duty),
    ensures
        lower < higher ==> duty_of(period_ns, min_ns, max_ns, max_duty, lower) <= duty_of(
            period_ns,
            min_ns,
            max_ns,
            max_duty,
            higher,
        ),
        duty_of(period_ns, min_ns, max_ns, max_duty, 0) == center_ns(min_ns, max_ns) / tick_ns(
            period_ns,
            max_duty,
        ),
        lower >= 100 ==> duty_of(period_ns, min_ns, max_ns, max_duty, lower) == duty_of(
            period_ns,
            min_ns,
            max_ns,
            max_duty,
            100,
        ),
        lower <= -100 ==> duty_of(period_ns, min_ns, max_ns, max_duty, lower) == duty_of(
            period_ns,
            min_ns,
            max_ns,
            max_duty,
            -100i8,
        ),
{
    let half = half_range(min_ns, max_ns);
    let center = center_ns(min_ns, max_ns);
    let tick = tick_ns(period_ns, max_duty);
    lemma_div_is_ordered(max_duty as int, period_ns as int, max_duty as int);
    vstd::arithmetic::div_mod::lemma_div_by_multiple(1, max_duty as int);
    assert(clamp_percent(0i8) == 0);
    assert(0 * half == 0) by (nonlinear_arith);
    vstd::arithmetic::div_mod::lemma_div_denominator(100 * center, 100, tick);
    vstd::arithmetic::div_mod::lemma_div_by_multiple(center, 100);
    assert(100 * center == center * 100) by (nonlinear_arith);
    if lower < higher {
        lemma_mul_inequality(clamp_percent(lower), clamp_percent(higher), half);
        lemma_div_is_ordered(
            pulse_x100(min_ns, max_ns, lower),
            pulse_x100(min_ns, max_ns, higher),
            100 * tick,
        );
    }
}

} // verus!
