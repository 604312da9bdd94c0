//! Depth capability: builds depth frames from the Webots `RangeFinder` device.
//!
//! Webots reports metres as floats; the contract carries unsigned millimetres
//! with zero reserved for "no return", so the conversion below is where a
//! non-finite or non-positive reading becomes that reserved value rather than
//! a plausible-looking distance.

use super::SampledSpec;
use crate::binary64::Binary64;
use vstd::prelude::*;

verus! {

/// One depth capability the robot declares.
#[derive(Clone, Debug)]
pub struct DepthSpec {
    pub sampled: SampledSpec,
    pub width: u32,
    pub height: u32,
}

/// One range reading.
#[derive(Clone, Copy, Debug, PartialEq, Eq, Structural)]
pub struct DepthReading {
    /// The distance in metres.
    pub meters: Binary64,
    /// What the host's floating-point unit makes of a thousand times as much.
    pub thousandfold: Binary64,
}

impl DepthReading {
    /// The distance in whole millimetres, or zero where no distance can be
    /// told: a reading that is not finite or not positive, or one whose nearest
    /// whole millimetre is not between one and the largest 16-bit number.
    pub open spec fn millimeters(self) -> u16 {
        if !self.meters.finite() || !self.meters.above_zero() {
            0
        } else if self.thousandfold.nan() || self.thousandfold.below_zero() {
            0
        } else if 1 <= self.thousandfold.rounded_magnitude() <= u16::MAX {
            self.thousandfold.rounded_magnitude() as u16
        } else {
            0
        }
    }
}

/// How a frame's samples are to be read.
#[derive(Clone, Copy, Debug, PartialEq, Eq, Structural)]
pub enum Encoding {
    U16Millimeters,
}

/// How a sample that tells no distance is marked.
#[derive(Clone, Copy, Debug, PartialEq, Eq, Structural)]
pub enum InvalidSamplePolicy {
    ZeroIsInvalid,
}

/// One depth image as the contract carries it: millimetres, zero where there
/// was no return.
#[derive(Clone, Debug, PartialEq, Eq)]
pub struct Frame {
    pub width: u32,
    pub height: u32,
    pub encoding: Encoding,
    pub invalid_samples: InvalidSamplePolicy,
    pub samples_mm: Vec<u16>,
}

impl DepthSpec {
    /// The frame one range image becomes.
    pub fn read(&self, image: &[DepthReading]) -> (frame: Frame)
        ensures
            frame.width == self.width,
            frame.height == self.height,
            frame.encoding == Encoding::U16Millimeters,
            frame.invalid_samples == InvalidSamplePolicy::ZeroIsInvalid,
            frame.samples_mm@ == image@.map_values(|reading: DepthReading| reading.millimeters()),
    {
        let mut samples_mm: Vec<u16> = Vec::new();
        let mut index: usize = 0;
        while index < image.len()
            invariant
                index <= image@.len(),
                samples_mm@.len() == index,
                forall|i: int| 0 <= i < index ==> samples_mm@[i] == image@[i].millimeters(),
            decreases image@.len() - index,
        {
            samples_mm.push(meters_to_u16_mm(image[index]));
            index = index + 1;
        }
        assert(samples_mm@ =~= image@.map_values(
            |reading: DepthReading| reading.millimeters(),
        ));
        Frame {
            width: self.width,
            height: self.height,
            encoding: Encoding::U16Millimeters,
            invalid_samples: InvalidSamplePolicy::ZeroIsInvalid,
            samples_mm,
        }
    }
}

/// The distance in whole millimetres, or zero where no distance can be told.
pub fn meters_to_u16_mm(reading: DepthReading) -> (millimeters: u16)
    ensures
        millimeters == reading.millimeters(),
{
    if !reading.meters.is_finite() || !reading.meters.is_positive() {
        return 0;
    }
    if reading.thousandfold.is_nan() || reading.thousandfold.is_negative() {
        return 0;
    }
    match reading.thousandfold.round_magnitude() {
        Some(whole) => {
            if whole > u16::MAX as u64 {
                0
            } else {
                whole as u16
            }
        },
        None => 0,
    }
}

/// A reading is its nearest whole millimetre where the contract can tell it:
/// the distance is a positive finite number, and its thousandfold lies from a
/// half up to, and not including, a half more than the largest 16-bit number.
/// Everywhere else it is zero, and nowhere there.
pub proof fn law_a_depth_is_its_nearest_millimeter(reading: DepthReading)
    ensures
        ({
            let one = crate::binary64::one_unit();
            let millimeters = reading.millimeters();
            let scaled = reading.thousandfold;
            &&& millimeters > 0 <==> reading.meters.finite() && reading.meters.above_zero()
                && !scaled.nan() && !scaled.below_zero() && one <= 2 * scaled.magnitude()
                && 2 * scaled.magnitude() < 131_071 * one
            &&& millimeters > 0 ==> 2 * scaled.magnitude() < (2 * millimeters + 1) * one && (2
                * millimeters) * one <= 2 * scaled.magnitude() + one
        }),
{
    let one = crate::binary64::one_unit() as int;
    vstd::arithmetic::power2::lemma_pow2_pos(crate::binary64::ONE_SCALE as nat);
    let scaled = reading.thousandfold;
    let m = scaled.magnitude() as int;
    let r = scaled.rounded_magnitude() as int;
    crate::binary64::law_rounding_is_nearest(scaled);
    assert(r >= 1 <==> one <= 2 * m) by (nonlinear_arith)
        requires
            2 * m < (2 * r + 1) * one,
            (2 * r) * one <= 2 * m + one,
            one > 0,
            r >= 0,
    ;
    assert(r <= 65_535 <==> 2 * m < 131_071 * one) by (nonlinear_arith)
        requires
            2 * m < (2 * r + 1) * one,
            (2 * r) * one <= 2 * m + one,
            one > 0,
    ;
}

} // verus!
