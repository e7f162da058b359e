use vstd::prelude::*;

verus! {

/// Voltage of the internal reference, in millivolts.
pub const VREFINT_MV: u64 = 1212;

/// Upper resistor of the ignition voltage divider, in ohms.
pub const DIVIDER_R1: u64 = 4700;

/// Lower resistor of the ignition voltage divider, in ohms.
pub const DIVIDER_R2: u64 = 1500;

/// Ignition line voltage in millivolts, cut to sixteen bits, from an ADC
/// sample of the divided line and a sample of the internal reference.
pub open spec fn ignition_mv_of(sample: u16, vrefint_sample: u16) -> u16 {
    let at_pin = sample * VREFINT_MV / (vrefint_sample as int);
    ((at_pin * ((DIVIDER_R1 + DIVIDER_R2) as int) / (DIVIDER_R2 as int)) % 0x10000) as u16
}

pub fn ignition_millivolts(sample: u16, vrefint_sample: u16) -> (r: u16)
    requires
        vrefint_sample > 0,
    ensures
        r == ignition_mv_of(sample, vrefint_sample),
{
    assert(sample * VREFINT_MV <= 0xffff * 1212) by (nonlinear_arith)
        requires
            sample <= 0xffff,
    ;
    let at_pin: u64 = (sample as u64) * VREFINT_MV / (vrefint_sample as u64);
    assert(at_pin <= sample * VREFINT_MV) by {
        vstd::arithmetic::div_mod::lemma_div_is_ordered_by_denominator(
            sample * VREFINT_MV,
            1,
            vrefint_sample as int,
        );
    }
    assert(at_pin * 6200 <= 0xffff * 1212 * 6200) by (nonlinear_arith)
        requires
            at_pin <= 0xffff * 1212,
    ;
    let mv: u64 = at_pin * (DIVIDER_R1 + DIVIDER_R2) / DIVIDER_R2;
    (mv % 0x10000) as u16
}

} // verus!
