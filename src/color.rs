use vstd::prelude::*;
use vstd::arithmetic::div_mod::{
    lemma_add_mod_noop_right, lemma_mod_add_multiples_vanish, lemma_small_mod,
    lemma_sub_mod_noop_right,
};
use vstd::arithmetic::mul::lemma_mul_inequality;

verus! {

/// An RGB color, one byte per channel.
pub type Color = (u8, u8, u8);

/// Number of interpolation sub-steps between two consecutive waypoints.
pub const TRANSITION_STEPS: u32 = 20;

/// One channel moved `step / total_steps` of the way from `start` to `end`:
/// `start + (end - start) * step / total_steps`, the division truncating toward
/// zero, kept to its low eight bits.
pub open spec fn channel_between(start: u8, end: u8, step: int, total_steps: int) -> int {
    (if end >= start {
        start + (end - start) * step / total_steps
    } else {
        start - (start - end) * step / total_steps
    }) % 256
}

pub open spec fn color_between(start: Color, end: Color, step: int, total_steps: int) -> Color {
    (
        channel_between(start.0, end.0, step, total_steps) as u8,
        channel_between(start.1, end.1, step, total_steps) as u8,
        channel_between(start.2, end.2, step, total_steps) as u8,
    )
}

fn interpolate_channel(start: u8, end: u8, step: u32, total_steps: u32) -> (r: u8)
    requires
        0 < total_steps,
    ensures
        r as int == channel_between(start, end, step as int, total_steps as int),
{
    let delta: u64 = if end >= start {
        (end - start) as u64
    } else {
        (start - end) as u64
    };
    assert(delta * step <= 255 * 0xffff_ffff) by (nonlinear_arith)
        requires
            delta <= 255,
            step <= 0xffff_ffff,
    ;
    let moved: u64 = delta * (step as u64) / (total_steps as u64);
    let low: u64 = moved % 256;
    if end >= start {
        proof {
            lemma_add_mod_noop_right(start as int, moved as int, 256);
        }
        ((start as u64 + low) % 256) as u8
    } else {
        proof {
            lemma_sub_mod_noop_right(start + 256, moved as int, 256);
            lemma_mod_add_multiples_vanish(start - moved, 256);
        }
        ((start as u64 + 256 - low) % 256) as u8
    }
}

/// The color `step / total_steps` of the way from `start` to `end`, each
/// channel computed as `start + (end - start) * step / total_steps` with the
/// division truncating toward zero and each channel kept to its low eight bits.
pub fn interpolate_color(start: Color, end: Color, step: u32, total_steps: u32) -> (r: Color)
    requires
        0 < total_steps,
    ensures
        r == color_between(start, end, step as int, total_steps as int),
{
    let (r1, g1, b1) = start;
    let (r2, g2, b2) = end;
    (
        interpolate_channel(r1, r2, step, total_steps),
        interpolate_channel(g1, g2, step, total_steps),
        interpolate_channel(b1, b2, step, total_steps),
    )
}

/// Abstract state of a color cycle: the waypoints, the leg being walked and the
/// sub-step within it.
pub ghost struct ColorCycle {
    pub colors: Seq<Color>,
    pub index: int,
    pub step: int,
    pub total_steps: int,
}

impl ColorCycle {
    pub open spec fn wf(self) -> bool {
        &&& 0 < self.colors.len()
        &&& 0 < self.total_steps
        &&& 0 <= self.index < self.colors.len()
        &&& 0 <= self.step < self.total_steps
    }

    /// Color produced from this state.
    pub open spec fn current(self) -> Color {
        color_between(
            self.colors[self.index],
            self.colors[(self.index + 1) % (self.colors.len() as int)],
            self.step,
            self.total_steps,
        )
    }

    /// State after one color has been produced.
    pub open spec fn successor(self) -> ColorCycle {
        if self.step + 1 >= self.total_steps {
            ColorCycle { index: (self.index + 1) % (self.colors.len() as int), step: 0, ..self }
        } else {
            ColorCycle { step: self.step + 1, ..self }
        }
    }

    /// State after `k` colors have been produced.
    pub open spec fn advanced(self, k: nat) -> ColorCycle
        decreases k,
    {
        if k == 0 {
            self
        } else {
            self.advanced((k - 1) as nat).successor()
        }
    }

    /// Position within the whole cycle, counted in sub-steps.
    pub open spec fn position(self) -> int {
        self.index * self.total_steps + self.step
    }

    pub open spec fn period(self) -> int {
        self.total_steps * self.colors.len()
    }
}

proof fn lemma_position_bounds(c: ColorCycle)
    requires
        c.wf(),
    ensures
        0 <= c.position() < c.period(),
{
    lemma_mul_inequality(0, c.index, c.total_steps);
    lemma_mul_inequality(c.index + 1, c.colors.len() as int, c.total_steps);
    assert(c.total_steps * c.colors.len() == c.colors.len() * c.total_steps) by (nonlinear_arith);
    assert((c.index + 1) * c.total_steps == c.index * c.total_steps + c.total_steps)
        by (nonlinear_arith);
}

/// Two well-formed states over the same waypoints and leg length are equal when
/// they stand at the same position.
proof fn lemma_position_determines(a: ColorCycle, b: ColorCycle)
    requires
        a.wf(),
        b.wf(),
        a.colors == b.colors,
        a.total_steps == b.total_steps,
        a.position() == b.position(),
    ensures
        a == b,
{
    let t = a.total_steps;
    if a.index < b.index {
        lemma_mul_inequality(a.index + 1, b.index, t);
        assert((a.index + 1) * t == a.index * t + t) by (nonlinear_arith);
    } else if b.index < a.index {
        lemma_mul_inequality(b.index + 1, a.index, t);
        assert((b.index + 1) * t == b.index * t + t) by (nonlinear_arith);
    }
}

proof fn lemma_successor_position(c: ColorCycle)
    requires
        c.wf(),
    ensures
        c.successor().wf(),
        c.successor().colors == c.colors,
        c.successor().total_steps == c.total_steps,
        c.successor().position() == (c.position() + 1) % c.period(),
{
    let n = c.colors.len() as int;
    let t = c.total_steps;
    lemma_position_bounds(c);
    assert((c.index + 1) * t == c.index * t + t) by (nonlinear_arith);
    if c.step + 1 >= t {
        if c.index + 1 < n {
            lemma_small_mod((c.index + 1) as nat, n as nat);
            assert((c.index + 1) * t < t * n) by (nonlinear_arith)
                requires
                    c.index + 1 < n,
                    0 < t,
            ;
            lemma_small_mod((c.position() + 1) as nat, c.period() as nat);
        } else {
            vstd::arithmetic::div_mod::lemma_mod_self_0(n);
            assert(n * t == t * n) by (nonlinear_arith);
            vstd::arithmetic::div_mod::lemma_mod_self_0(c.period());
        }
    } else {
        lemma_mul_inequality(c.index + 1, n, t);
        assert(n * t == t * n) by (nonlinear_arith);
        lemma_small_mod((c.position() + 1) as nat, c.period() as nat);
    }
}

proof fn lemma_advanced_position(c: ColorCycle, k: nat)
    requires
        c.wf(),
    ensures
        c.advanced(k).wf(),
        c.advanced(k).colors == c.colors,
        c.advanced(k).total_steps == c.total_steps,
        c.advanced(k).position() == (c.position() + k) % c.period(),
    decreases k,
{
    lemma_position_bounds(c);
    if k == 0 {
        lemma_small_mod(c.position() as nat, c.period() as nat);
    } else {
        let prev = c.advanced((k - 1) as nat);
        lemma_advanced_position(c, (k - 1) as nat);
        lemma_successor_position(prev);
        lemma_add_mod_noop_right(1, c.position() + k - 1, c.period());
    }
}

/// A color cycle started at the first waypoint is back at its start after
/// `total_steps * number_of_waypoints` colors, so the next color produced is
/// the first waypoint again; no state along the way leaves the waypoint list.
pub proof fn lemma_full_cycle_closes(c: ColorCycle, k: nat)
    requires
        c.wf(),
        c.index == 0,
        c.step == 0,
        k <= c.period(),
    ensures
        c.advanced(k).wf(),
        c.advanced(c.period() as nat) == c,
        c.advanced(c.period() as nat).current() == c.colors[0],
{
    lemma_position_bounds(c);
    lemma_advanced_position(c, k);
    let full = c.advanced(c.period() as nat);
    lemma_advanced_position(c, c.period() as nat);
    vstd::arithmetic::div_mod::lemma_mod_self_0(c.period());
    lemma_position_determines(full, c);
    let start = c.colors[0];
    let end = c.colors[1int % (c.colors.len() as int)];
    assert(full.current() == color_between(start, end, 0, c.total_steps));
    assert(channel_between(start.0, end.0, 0, c.total_steps) == start.0);
    assert(channel_between(start.1, end.1, 0, c.total_steps) == start.1);
    assert(channel_between(start.2, end.2, 0, c.total_steps) == start.2);
}

/// Endless, restartable walk through a list of waypoint colors.
pub struct ColorTransition<'a> {
    colors: &'a [Color],
    step: u32,
    index: usize,
    total_steps: u32,
}

impl<'a> ColorTransition<'a> {
    pub closed spec fn view(&self) -> ColorCycle {
        ColorCycle {
            colors: self.colors@,
            index: self.index as int,
            step: self.step as int,
            total_steps: self.total_steps as int,
        }
    }

    /// A non-empty waypoint list, a leg index inside it, a sub-step inside the
    /// leg and legs of `TRANSITION_STEPS` sub-steps.
    pub open spec fn wf(&self) -> bool {
        &&& self@.wf()
        &&& self@.total_steps == TRANSITION_STEPS
    }

    /// Starts at the first waypoint, walking each leg in `TRANSITION_STEPS` sub-steps.
    pub fn new(colors: &'a [Color]) -> (r: Self)
        ensures
            r@.colors == colors@,
            r@.index == 0,
            r@.step == 0,
            r@.total_steps == TRANSITION_STEPS,
            colors@.len() > 0 ==> r.wf(),
    {
        ColorTransition { colors, step: 0, index: 0, total_steps: TRANSITION_STEPS }
    }

    /// Returns the color of the current state and advances by one sub-step,
    /// moving to the next leg (cyclically) after the last sub-step.
    pub fn next(&mut self) -> (r: Color)
        requires
            old(self).wf(),
        ensures
            r == old(self)@.current(),
            final(self)@ == old(self)@.successor(),
            final(self).wf(),
    {
        let len = self.colors.len();
        let color = interpolate_color(
            self.colors[self.index],
            self.colors[(self.index + 1) % len],
            self.step,
            self.total_steps,
        );
        self.step = self.step + 1;
        if self.step >= self.total_steps {
            self.step = 0;
            self.index = (self.index + 1) % len;
        }
        color
    }
}

} // verus!
