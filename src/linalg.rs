//! The matrix, vector and quaternion types of `glam`, carried through the
//! library as opaque values, and the few `glam` operations the animation
//! logic relies on.
use vstd::prelude::*;

verus! {

#[verifier::external_type_specification]
#[verifier::external_body]
pub struct ExMat4(glam::Mat4);

#[verifier::external_type_specification]
#[verifier::external_body]
pub struct ExVec3(glam::Vec3);

#[verifier::external_type_specification]
#[verifier::external_body]
pub struct ExQuat(glam::Quat);

/// The product `a * b` as `glam` computes it.
pub uninterp spec fn mat4_product(a: glam::Mat4, b: glam::Mat4) -> glam::Mat4;

/// The inverse of a matrix as `glam` computes it, or `None` where the matrix is
/// singular or its inverse is not finite.
pub uninterp spec fn mat4_inverse(m: glam::Mat4) -> Option<glam::Mat4>;

/// The affine matrix that translates by a vector.
pub uninterp spec fn translation_matrix(v: glam::Vec3) -> glam::Mat4;

/// The affine matrix that rotates by a quaternion.
pub uninterp spec fn rotation_matrix(q: glam::Quat) -> glam::Mat4;

/// The (scale, rotation, translation) that `glam` reads out of an affine matrix.
pub uninterp spec fn scale_rotation_translation(m: glam::Mat4) -> (glam::Vec3, glam::Quat, glam::Vec3);

/// Relies on `glam::Mat4::mul_mat4`: the matrix product.
pub assume_specification[ glam::Mat4::mul_mat4 ](a: &glam::Mat4, b: &glam::Mat4) -> (r: glam::Mat4)
    ensures
        r == mat4_product(*a, *b),
;

/// Relies on `glam::Mat4::try_inverse`: the inverse, `None` for a singular
/// matrix or a non-finite inverse; it never panics.
pub assume_specification[ glam::Mat4::try_inverse ](m: &glam::Mat4) -> (r: Option<glam::Mat4>)
    ensures
        r == mat4_inverse(*m),
;

/// Relies on `glam::Mat4::from_translation`: the translation matrix.
pub assume_specification[ glam::Mat4::from_translation ](v: glam::Vec3) -> (r: glam::Mat4)
    ensures
        r == translation_matrix(v),
;

/// Relies on `glam::Mat4::from_quat`: the rotation matrix (it checks nothing
/// unless glam's assertion features are enabled, which this crate does not do).
pub assume_specification[ glam::Mat4::from_quat ](q: glam::Quat) -> (r: glam::Mat4)
    ensures
        r == rotation_matrix(q),
;

/// Relies on `glam::Mat4::to_scale_rotation_translation`: the decomposition of
/// an affine matrix (it checks nothing unless glam's assertion features are
/// enabled, which this crate does not do).
pub assume_specification[ glam::Mat4::to_scale_rotation_translation ](m: &glam::Mat4) -> (r: (
    glam::Vec3,
    glam::Quat,
    glam::Vec3,
))
    ensures
        r == scale_rotation_translation(*m),
;

/// Relies on the `glam::Mat4::IDENTITY` constant.
#[verifier::external_body]
pub(crate) fn identity_matrix() -> glam::Mat4 {
    glam::Mat4::IDENTITY
}

} // verus!
