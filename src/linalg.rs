//! The glam vector and matrix types that the scene model carries, and the
//! few glam operations that the model relies on.
//!
//! The values are opaque here: positions, sizes, colors and transforms are
//! handed through unchanged. Where a rule reads a component, it reads the
//! component's bit pattern and decides on it here.
use vstd::prelude::*;

use crate::opacity::{
    in_unit_interval, is_positive_bits, NEG_ZERO_BITS, ONE_BITS, POS_INFINITY_BITS,
};

verus! {

#[verifier::external_type_specification]
#[verifier::external_body]
pub struct ExVec2(glam::Vec2);

#[verifier::external_type_specification]
#[verifier::external_body]
pub struct ExVec4(glam::Vec4);

#[verifier::external_type_specification]
#[verifier::external_body]
pub struct ExMat3(glam::Mat3);

/// Relies on glam's derived `Clone` for the `Copy` type `Vec2`: a copy.
pub assume_specification[ <glam::Vec2 as core::clone::Clone>::clone ](v: &glam::Vec2) -> (r:
    glam::Vec2)
    ensures
        r == *v,
;

/// Relies on glam's derived `Clone` for the `Copy` type `Vec4`: a copy.
pub assume_specification[ <glam::Vec4 as core::clone::Clone>::clone ](v: &glam::Vec4) -> (r:
    glam::Vec4)
    ensures
        r == *v,
;

/// Relies on glam's derived `Clone` for the `Copy` type `Mat3`: a copy.
pub assume_specification[ <glam::Mat3 as core::clone::Clone>::clone ](m: &glam::Mat3) -> (r:
    glam::Mat3)
    ensures
        r == *m,
;

/// The bit patterns of the two components of the vector, `(x, y)`.
pub uninterp spec fn vec2_bits(v: glam::Vec2) -> (u32, u32);

/// The bit patterns of the four components of the vector, `(x, y, z, w)`.
pub uninterp spec fn vec4_bits(v: glam::Vec4) -> (u32, u32, u32, u32);

/// Both components of the vector are greater than zero (`false` for NaN).
pub open spec fn all_positive(v: glam::Vec2) -> bool {
    is_positive_bits(vec2_bits(v).0) && is_positive_bits(vec2_bits(v).1)
}

/// All four components of the vector lie in `[0.0, 1.0]` (`false` for NaN).
pub open spec fn all_in_unit_range(v: glam::Vec4) -> bool {
    let b = vec4_bits(v);
    in_unit_interval(b.0) && in_unit_interval(b.1) && in_unit_interval(b.2) && in_unit_interval(
        b.3,
    )
}

/// The vector whose four components are the number with bit pattern `bits`,
/// as glam's `Vec4::splat` builds it.
pub uninterp spec fn vec4_splat(bits: u32) -> glam::Vec4;

/// The matrix with the number with bit pattern `bits` at every place of its
/// diagonal and zero elsewhere; for `1.0` that is glam's `Mat3::IDENTITY`.
pub uninterp spec fn mat3_diagonal(bits: u32) -> glam::Mat3;

/// Relies on glam's `Mat3::IDENTITY`, the columns `Vec3::X`, `Vec3::Y`,
/// `Vec3::Z`: ones on the diagonal, zeros elsewhere.
#[verifier::external_body]
pub(crate) fn identity_transform() -> (r: glam::Mat3)
    ensures
        r == mat3_diagonal(ONE_BITS),
{
    glam::Mat3::IDENTITY
}

/// Relies on glam's `Vec4::ONE`, which is `Vec4::splat(1.0)`: opaque white as
/// an RGBA color, every component `1.0`.
#[verifier::external_body]
pub(crate) fn opaque_white() -> (r: glam::Vec4)
    ensures
        r == vec4_splat(ONE_BITS),
        vec4_bits(r) == (ONE_BITS, ONE_BITS, ONE_BITS, ONE_BITS),
{
    glam::Vec4::ONE
}

/// Relies on glam's `impl Add for Vec2`, the component-wise sum. Nothing is
/// stated of the result: a NaN component may come out with any bit pattern.
#[verifier::external_body]
pub(crate) fn add_vec2(a: glam::Vec2, b: glam::Vec2) -> glam::Vec2 {
    a + b
}

/// Relies on glam's public fields `Vec2::x`, `Vec2::y` and std's
/// `f32::to_bits`: the bit patterns of the two components.
#[verifier::external_body]
fn vec2_component_bits(v: glam::Vec2) -> (r: (u32, u32))
    ensures
        r == vec2_bits(v),
{
    (v.x.to_bits(), v.y.to_bits())
}

/// Relies on glam's `Vec4::to_array` and std's `f32::to_bits`: the bit
/// patterns of the four components.
#[verifier::external_body]
fn vec4_component_bits(v: glam::Vec4) -> (r: (u32, u32, u32, u32))
    ensures
        r == vec4_bits(v),
{
    let [x, y, z, w] = v.to_array();
    (x.to_bits(), y.to_bits(), z.to_bits(), w.to_bits())
}

/// Whether both components of the vector are greater than zero.
pub fn is_positive_size(v: glam::Vec2) -> (r: bool)
    ensures
        r == all_positive(v),
{
    let (x, y) = vec2_component_bits(v);
    0 < x && x <= POS_INFINITY_BITS && 0 < y && y <= POS_INFINITY_BITS
}

/// Whether the bit pattern encodes a number in `[0.0, 1.0]`.
fn is_unit_bits(bits: u32) -> (r: bool)
    ensures
        r == in_unit_interval(bits),
{
    bits <= ONE_BITS || bits == NEG_ZERO_BITS
}

/// Whether all four components of the vector lie in `[0.0, 1.0]`.
pub fn is_unit_color(v: glam::Vec4) -> (r: bool)
    ensures
        r == all_in_unit_range(v),
{
    let (x, y, z, w) = vec4_component_bits(v);
    is_unit_bits(x) && is_unit_bits(y) && is_unit_bits(z) && is_unit_bits(w)
}

} // verus!
