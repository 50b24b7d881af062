//! The choices that a shape makes when a ray meets it: which root of the meeting to report,
//! and which face of a box a point belongs to.
//!
//! The distances themselves are the caller's: the functions here compare them and choose.

use vstd::prelude::*;
use vstd::std_specs::cmp::PartialOrdIs;
use vstd::std_specs::cmp::PartialOrdSpec;

verus! {

/// Whether the ray parameter `t` lies outside the range from `t_min` to `t_max`: below the
/// one or above the other. A parameter equal to either bound is inside.
pub open spec fn outside_range<T: PartialOrd>(t: T, t_min: T, t_max: T) -> bool {
    t.is_lt(&t_min) || t.is_gt(&t_max)
}

/// Which of the two roots of a ray's meeting with a surface counts as the hit: the nearer
/// one unless it lies outside the range, then the farther one unless that lies outside too.
pub open spec fn root_in_range<T: PartialOrd>(nearer: T, farther: T, t_min: T, t_max: T) -> Option<
    T,
> {
    if !outside_range(nearer, t_min, t_max) {
        Some(nearer)
    } else if !outside_range(farther, t_min, t_max) {
        Some(farther)
    } else {
        None
    }
}

/// Chooses the root to report for a ray that meets a surface at the parameters `nearer` and
/// `farther`, where only what lies from `t_min` to `t_max` along the ray counts.
///
/// The lower bound keeps a ray from meeting the surface it starts on; the upper bound is the
/// nearest hit found so far.
pub fn nearest_root_in_range<T: PartialOrd + Copy>(
    nearer: T,
    farther: T,
    t_min: T,
    t_max: T,
) -> (root: Option<T>)
    ensures
        root == None::<T> || root == Some(nearer) || root == Some(farther),
        T::obeys_partial_cmp_spec() ==> root == root_in_range(nearer, farther, t_min, t_max),
{
    if nearer < t_min || nearer > t_max {
        if farther < t_min || farther > t_max {
            None
        } else {
            Some(farther)
        }
    } else {
        Some(nearer)
    }
}

/// The axis across which a point of a box's surface lies, where `on_face[i]` says whether the
/// point is on one of the two faces across axis `i`: the first such axis, so that on an
/// edge or a corner x wins over y, and y over z.
pub fn face_axis(on_face: [bool; 3]) -> (axis: Option<usize>)
    ensures
        axis matches Some(a) ==> a < 3 && on_face[a as int] && forall|b: int|
            0 <= b < a ==> !on_face[b],
        axis is None ==> forall|b: int| 0 <= b < 3 ==> !on_face[b],
{
    if on_face[0] {
        Some(0)
    } else if on_face[1] {
        Some(1)
    } else if on_face[2] {
        Some(2)
    } else {
        None
    }
}

} // verus!
