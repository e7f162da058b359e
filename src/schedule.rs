use vstd::prelude::*;
use crate::color::{Color, ColorCycle, ColorTransition, TRANSITION_STEPS};
use crate::lin::{frame_of, LinFrame, LinRequest};

verus! {

/// Base of the three identifiers that the LIN schedule uses.
pub const LIN_FRAME_OFFSET: u8 = 5;

/// Identifier of the outbound indicator state frame.
pub const LIN_FRAME_LEDS: u8 = LIN_FRAME_OFFSET;

/// Identifier of the outbound RGB color frame.
pub const LIN_FRAME_RGB: u8 = LIN_FRAME_OFFSET + 1;

/// Identifier of the inbound light sensor frame.
pub const LIN_FRAME_PHOTORES: u8 = LIN_FRAME_OFFSET + 2;

/// Payload length of the light sensor response.
pub const PHOTORES_DATA_LEN: usize = 2;

/// Indicator pattern that follows `led`: the single bit moves one place up
/// within the low four bits and starts again at bit 0 when it leaves them.
pub open spec fn indicator_after(led: u8) -> u8 {
    if (2 * led) % 16 == 0 {
        1
    } else {
        ((2 * led) % 16) as u8
    }
}

pub fn next_indicator(led: u8) -> (r: u8)
    ensures
        r == indicator_after(led),
{
    let doubled: u16 = led as u16 * 2;
    let masked: u16 = doubled & 0xf;
    assert(doubled & 0xf == doubled % 16) by (bit_vector);
    if masked == 0 {
        1
    } else {
        masked as u8
    }
}

/// The waypoints that the color frame cycles through: red, green, blue.
pub fn demo_waypoints() -> (r: Vec<Color>)
    ensures
        r@ == seq![(255u8, 0u8, 0u8), (0u8, 255u8, 0u8), (0u8, 0u8, 255u8)],
{
    let mut r: Vec<Color> = Vec::new();
    r.push((255, 0, 0));
    r.push((0, 255, 0));
    r.push((0, 0, 255));
    assert(r@ =~= seq![(255u8, 0u8, 0u8), (0u8, 255u8, 0u8), (0u8, 0u8, 255u8)]);
    r
}

/// What the LIN master sends from one cycle to the next: the indicator bit and
/// the color walk.
pub struct LinSchedule<'a> {
    led: u8,
    colors: ColorTransition<'a>,
}

impl<'a> LinSchedule<'a> {
    pub closed spec fn led(&self) -> u8 {
        self.led
    }

    pub closed spec fn colors(&self) -> ColorCycle {
        self.colors@
    }

    pub open spec fn wf(&self) -> bool {
        &&& self.colors().wf()
        &&& self.colors().total_steps == TRANSITION_STEPS
    }

    /// Starts with bit 0 lit and the color walk at the first waypoint.
    pub fn new(waypoints: &'a [Color]) -> (r: Self)
        requires
            waypoints@.len() > 0,
        ensures
            r.wf(),
            r.led() == 1,
            r.colors().colors == waypoints@,
            r.colors().index == 0,
            r.colors().step == 0,
    {
        LinSchedule { led: 1, colors: ColorTransition::new(waypoints) }
    }

    /// The three transactions of this cycle, in order: write the indicator
    /// state, write the color, poll the light sensor. Afterwards the indicator
    /// bit and the color walk have advanced.
    pub fn next_cycle(&mut self) -> (r: (LinRequest, LinRequest, LinRequest))
        requires
            old(self).wf(),
        ensures
            final(self).wf(),
            r.0 is Write && r.0->Write_0@ == frame_of(LIN_FRAME_LEDS, seq![old(self).led()]),
            r.1 is Write && r.1->Write_0@ == frame_of(
                LIN_FRAME_RGB,
                seq![
                    old(self).colors().current().0,
                    old(self).colors().current().1,
                    old(self).colors().current().2,
                ],
            ),
            r.2 == (LinRequest::Read { id: LIN_FRAME_PHOTORES, data_length: PHOTORES_DATA_LEN }),
            final(self).led() == indicator_after(old(self).led()),
            final(self).colors() == old(self).colors().successor(),
    {
        let mut leds: Vec<u8> = Vec::new();
        leds.push(self.led);
        assert(leds@ =~= seq![self.led]);
        let led_frame = LinFrame::from_data(LIN_FRAME_LEDS, leds.as_slice());
        self.led = next_indicator(self.led);
        let (r, g, b) = self.colors.next();
        let mut rgb: Vec<u8> = Vec::new();
        rgb.push(r);
        rgb.push(g);
        rgb.push(b);
        assert(rgb@ =~= seq![r, g, b]);
        let color_frame = LinFrame::from_data(LIN_FRAME_RGB, rgb.as_slice());
        (
            LinRequest::Write(led_frame),
            LinRequest::Write(color_frame),
            LinRequest::Read { id: LIN_FRAME_PHOTORES, data_length: PHOTORES_DATA_LEN },
        )
    }
}

} // verus!
