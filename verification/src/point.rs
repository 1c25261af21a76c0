//! Points of the plane.

use vstd::prelude::*;

verus! {

/// A point or an offset in the plane, as `glam` holds it. Nothing in this
/// library looks inside one; points are stored, copied and handed on.
#[verifier::external_type_specification]
#[verifier::external_body]
pub struct ExVec2(glam::Vec2);

} // verus!
