//! Single-precision numbers as IEEE-754 bit patterns.
//!
//! The buffers carry every real quantity as the 32 bits that the GPU will
//! read. Classifying a pattern is integer work; the one arithmetic operation
//! that the encoder needs, the difference of two points, is left to `glam`.

use vstd::prelude::*;

verus! {

/// Mask of the eight exponent bits.
pub const EXPONENT_MASK: u32 = 0x7f80_0000;

/// True when `bits` is a number: neither an infinity nor a NaN.
pub open spec fn is_finite(bits: u32) -> bool {
    bits & EXPONENT_MASK != EXPONENT_MASK
}

/// True when every pattern of `words` is a number.
pub open spec fn all_finite(words: Seq<u32>) -> bool {
    forall|i: int| 0 <= i < words.len() ==> is_finite(#[trigger] words[i])
}

/// Tells whether `bits` is neither an infinity nor a NaN.
pub fn check_finite(bits: u32) -> (finite: bool)
    ensures
        finite == is_finite(bits),
{
    bits & EXPONENT_MASK != EXPONENT_MASK
}

/// Tells whether the three coordinates of `point` are all numbers.
pub fn check_point_finite(point: &[u32; 3]) -> (finite: bool)
    ensures
        finite == all_finite(point@),
{
    check_finite(point[0]) && check_finite(point[1]) && check_finite(point[2])
}

/// Tells whether the sixteen entries of `matrix` are all numbers.
pub fn check_matrix_finite(matrix: &[u32; 16]) -> (finite: bool)
    ensures
        finite == all_finite(matrix@),
{
    let mut i: usize = 0;
    while i < 16
        invariant
            i <= 16,
            forall|j: int| 0 <= j < i ==> is_finite(#[trigger] matrix@[j]),
        decreases 16 - i,
    {
        if !check_finite(matrix[i]) {
            return false;
        }
        i += 1;
    }
    true
}

/// The componentwise difference `a - b` of two points in single precision,
/// as bit patterns: three patterns for two points of three finite
/// coordinates each.
pub uninterp spec fn point_difference(a: Seq<u32>, b: Seq<u32>) -> Seq<u32>;

/// Subtracts `b` from `a` with `glam`'s `Vec3A` subtraction.
///
/// Trusted: the result is `glam::Vec3A::from_array(a) - glam::Vec3A::from_array(b)`,
/// each coordinate reinterpreted from and to its bit pattern by
/// `bytemuck::cast`. The subtraction is the IEEE-754 one on each coordinate,
/// which on finite operands gives the same pattern everywhere.
#[verifier::external_body]
pub(crate) fn difference(a: &[u32; 3], b: &[u32; 3]) -> (d: [u32; 3])
    requires
        all_finite(a@),
        all_finite(b@),
    ensures
        d@ == point_difference(a@, b@),
{
    let d = glam::Vec3A::from_array(bytemuck::cast(*a)) - glam::Vec3A::from_array(
        bytemuck::cast(*b),
    );
    bytemuck::cast(d.to_array())
}

} // verus!
