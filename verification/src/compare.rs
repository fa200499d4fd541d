//! The outcome of comparing two images.

use vstd::prelude::*;

verus! {

/// Result of comparing two images
#[derive(Debug, Clone, Copy, PartialEq, Eq)]
pub enum CompareResult {
    /// Images match exactly
    Match,
    /// Images have different dimensions
    DimensionMismatch {
        /// Dimensions of the GLSL output
        glsl_dimensions: (u32, u32),
        /// Dimensions of the WGSL output
        wgsl_dimensions: (u32, u32),
    },
    /// Images have matching dimensions but different pixel values
    PixelMismatch {
        /// Whether red component values match
        r_matched: bool,
        /// Whether green component values match
        g_matched: bool,
        /// Whether blue component values match
        b_matched: bool,
        /// Whether alpha component values match
        a_matched: bool,
    },
}

/// The outcome for two images, given their dimensions and, for each of the
/// four channels, whether the images agree in it in every pixel. Images of
/// different dimensions do not match, whatever their pixels.
pub fn compare_outcome(
    glsl_dimensions: (u32, u32),
    wgsl_dimensions: (u32, u32),
    matched: [bool; 4],
) -> (out: CompareResult)
    ensures
        out == if glsl_dimensions != wgsl_dimensions {
            CompareResult::DimensionMismatch { glsl_dimensions, wgsl_dimensions }
        } else if matched@[0] && matched@[1] && matched@[2] && matched@[3] {
            CompareResult::Match
        } else {
            CompareResult::PixelMismatch {
                r_matched: matched@[0],
                g_matched: matched@[1],
                b_matched: matched@[2],
                a_matched: matched@[3],
            }
        },
{
    if glsl_dimensions.0 != wgsl_dimensions.0 || glsl_dimensions.1 != wgsl_dimensions.1 {
        return CompareResult::DimensionMismatch { glsl_dimensions, wgsl_dimensions };
    }
    if matched[0] && matched[1] && matched[2] && matched[3] {
        CompareResult::Match
    } else {
        CompareResult::PixelMismatch {
            r_matched: matched[0],
            g_matched: matched[1],
            b_matched: matched[2],
            a_matched: matched[3],
        }
    }
}

} // verus!
