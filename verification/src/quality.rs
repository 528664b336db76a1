//! Image-quality tiers and the controller's fixed-point constants.
//!
//! Bitrate scale factors are permille values: `1000` is a factor of one.

use vstd::prelude::*;

verus! {

/// Nominal shared frame rate.
pub const FPS: u32 = 30;

/// Lowest frame rate the controller ever targets.
pub const MIN_FPS: u32 = 1;

/// Highest frame rate the controller ever targets.
pub const MAX_FPS: u32 = 120;

/// Frame rate used while a viewer has no decision yet, and as the
/// ramp-up cap right after a viewer joins.
pub const INIT_FPS: u32 = 15;

/// Highest bitrate ratio, in permille (a factor of 40).
pub const BR_MAX: u32 = 40000;

/// Lowest bitrate ratio a custom quality request may ask for, in permille.
pub const BR_MIN: u32 = 200;

/// Absolute floor of the bitrate ratio, in permille.
pub const BR_MIN_HIGH_RESOLUTION: u32 = 100;

/// Nominal ratio of the best quality tier, in permille.
pub const BR_BEST: u32 = 1500;

/// Nominal ratio of the balanced quality tier, in permille.
pub const BR_BALANCED: u32 = 1000;

/// Nominal ratio of the low quality tier, in permille.
pub const BR_SPEED: u32 = 500;

/// Wire code a viewer sends to request the low tier.
pub const IMAGE_QUALITY_LOW: i32 = 2;

/// Wire code a viewer sends to request the balanced tier.
pub const IMAGE_QUALITY_BALANCED: i32 = 3;

/// Wire code a viewer sends to request the best tier.
pub const IMAGE_QUALITY_BEST: i32 = 4;

/// A viewer's image-quality preference: one of the named tiers, or a
/// custom bitrate ratio in permille.
#[derive(Clone, Copy, PartialEq, Eq, Structural, Debug)]
pub enum Quality {
    Best,
    Balanced,
    Low,
    Custom(u32),
}

impl Quality {
    /// Nominal bitrate ratio of this preference, in permille.
    pub open spec fn spec_ratio(self) -> u32 {
        match self {
            Quality::Best => BR_BEST,
            Quality::Balanced => BR_BALANCED,
            Quality::Low => BR_SPEED,
            Quality::Custom(v) => v,
        }
    }

    /// Nominal bitrate ratio of this preference, in permille.
    pub fn ratio(&self) -> (r: u32)
        ensures
            r == self.spec_ratio(),
    {
        match self {
            Quality::Best => BR_BEST,
            Quality::Balanced => BR_BALANCED,
            Quality::Low => BR_SPEED,
            Quality::Custom(v) => *v,
        }
    }

    /// Decoded preference of a raw wire code: the three named tiers keep
    /// their fixed codes; any other code carries a percentage in bits
    /// 8 to 19, which doubled and clamped to [`BR_MIN`, `BR_MAX`] gives
    /// a custom ratio.
    pub open spec fn spec_decode(code: i32) -> Quality {
        if code == IMAGE_QUALITY_BALANCED {
            Quality::Balanced
        } else if code == IMAGE_QUALITY_LOW {
            Quality::Low
        } else if code == IMAGE_QUALITY_BEST {
            Quality::Best
        } else {
            Quality::Custom(Self::spec_custom_ratio(code))
        }
    }

    /// Custom ratio carried by an arbitrary wire code, in permille:
    /// bits 8 to 19 of the code, doubled (a percentage), scaled to
    /// permille, clamped to [`BR_MIN`, `BR_MAX`].
    pub open spec fn spec_custom_ratio(code: i32) -> u32 {
        let bits = ((code as u32) >> 8u32) & 0xFFF;
        let permille = (bits * 20) as u32;
        if permille < BR_MIN {
            BR_MIN
        } else if permille > BR_MAX {
            BR_MAX
        } else {
            permille
        }
    }

    /// Decodes a raw wire code into a preference.
    pub fn decode(code: i32) -> (r: Quality)
        ensures
            r == Self::spec_decode(code),
    {
        if code == IMAGE_QUALITY_BALANCED {
            Quality::Balanced
        } else if code == IMAGE_QUALITY_LOW {
            Quality::Low
        } else if code == IMAGE_QUALITY_BEST {
            Quality::Best
        } else {
            let bits = ((code as u32) >> 8u32) & 0xFFF;
            assert(bits <= 0xFFF) by (bit_vector)
                requires bits == ((code as u32) >> 8u32) & 0xFFF;
            let permille = bits * 20;
            let clamped = if permille < BR_MIN {
                BR_MIN
            } else if permille > BR_MAX {
                BR_MAX
            } else {
                permille
            };
            Quality::Custom(clamped)
        }
    }

    /// A decoded custom ratio always lies in [`BR_MIN`, `BR_MAX`].
    pub proof fn lemma_custom_ratio_in_range(code: i32)
        ensures
            BR_MIN <= Self::spec_custom_ratio(code) <= BR_MAX,
    {
    }
}

} // verus!
