//! Transformations and bounding boxes.

use vstd::prelude::*;

use crate::sys::{Real, REAL_INFINITY, REAL_ONE, REAL_ZERO};

verus! {

/// Quaternion decomposition of an affine transformation: a scaling, skew and
/// shift, then a rotation given as a quaternion, then a translation.
#[derive(Debug, Clone, Copy, PartialEq, Eq, Structural)]
pub struct QuaternionDecomposition {
    pub scale_x: Real,
    pub scale_y: Real,
    pub scale_z: Real,
    pub skew_xy: Real,
    pub skew_xz: Real,
    pub skew_yz: Real,
    pub shift_x: Real,
    pub shift_y: Real,
    pub shift_z: Real,
    pub quaternion_r: Real,
    pub quaternion_i: Real,
    pub quaternion_j: Real,
    pub quaternion_k: Real,
    pub translation_x: Real,
    pub translation_y: Real,
    pub translation_z: Real,
}

/// The decomposition of the identity: unit scaling, unit quaternion, nothing
/// else.
pub open spec fn identity_transform() -> QuaternionDecomposition {
    QuaternionDecomposition {
        scale_x: REAL_ONE,
        scale_y: REAL_ONE,
        scale_z: REAL_ONE,
        skew_xy: REAL_ZERO,
        skew_xz: REAL_ZERO,
        skew_yz: REAL_ZERO,
        shift_x: REAL_ZERO,
        shift_y: REAL_ZERO,
        shift_z: REAL_ZERO,
        quaternion_r: REAL_ONE,
        quaternion_i: REAL_ZERO,
        quaternion_j: REAL_ZERO,
        quaternion_k: REAL_ZERO,
        translation_x: REAL_ZERO,
        translation_y: REAL_ZERO,
        translation_z: REAL_ZERO,
    }
}

impl Default for QuaternionDecomposition {
    fn default() -> (q: Self)
        ensures
            q == identity_transform(),
    {
        QuaternionDecomposition::identity()
    }
}

impl QuaternionDecomposition {
    /// Creates a quaternion decomposition with the identity transformation.
    pub fn identity() -> (q: Self)
        ensures
            q == identity_transform(),
    {
        QuaternionDecomposition {
            scale_x: REAL_ONE,
            scale_y: REAL_ONE,
            scale_z: REAL_ONE,
            skew_xy: REAL_ZERO,
            skew_xz: REAL_ZERO,
            skew_yz: REAL_ZERO,
            shift_x: REAL_ZERO,
            shift_y: REAL_ZERO,
            shift_z: REAL_ZERO,
            quaternion_r: REAL_ONE,
            quaternion_i: REAL_ZERO,
            quaternion_j: REAL_ZERO,
            quaternion_k: REAL_ZERO,
            translation_x: REAL_ZERO,
            translation_y: REAL_ZERO,
            translation_z: REAL_ZERO,
        }
    }

    /// Returns the scale part of the decomposition.
    pub fn scale(&self) -> (r: [Real; 3])
        ensures
            r@ == seq![self.scale_x, self.scale_y, self.scale_z],
    {
        [self.scale_x, self.scale_y, self.scale_z]
    }

    /// Returns the skew part of the decomposition.
    pub fn skew(&self) -> (r: [Real; 3])
        ensures
            r@ == seq![self.skew_xy, self.skew_xz, self.skew_yz],
    {
        [self.skew_xy, self.skew_xz, self.skew_yz]
    }

    /// Returns the shift part of the decomposition.
    pub fn shift(&self) -> (r: [Real; 3])
        ensures
            r@ == seq![self.shift_x, self.shift_y, self.shift_z],
    {
        [self.shift_x, self.shift_y, self.shift_z]
    }

    /// Returns the quaternion part of the decomposition, real part first.
    pub fn quaternion(&self) -> (r: [Real; 4])
        ensures
            r@ == seq![self.quaternion_r, self.quaternion_i, self.quaternion_j, self.quaternion_k],
    {
        [self.quaternion_r, self.quaternion_i, self.quaternion_j, self.quaternion_k]
    }

    /// Sets the quaternion part of the decomposition.
    pub fn set_quaternion(&mut self, quaternion: [Real; 4])
        ensures
            *final(self) == (QuaternionDecomposition {
                quaternion_r: quaternion[0],
                quaternion_i: quaternion[1],
                quaternion_j: quaternion[2],
                quaternion_k: quaternion[3],
                ..*old(self)
            }),
    {
        self.quaternion_r = quaternion[0];
        self.quaternion_i = quaternion[1];
        self.quaternion_j = quaternion[2];
        self.quaternion_k = quaternion[3];
    }

    /// Sets the scaling part of the decomposition.
    pub fn set_scale(&mut self, scale: [Real; 3])
        ensures
            *final(self) == (QuaternionDecomposition {
                scale_x: scale[0],
                scale_y: scale[1],
                scale_z: scale[2],
                ..*old(self)
            }),
    {
        self.scale_x = scale[0];
        self.scale_y = scale[1];
        self.scale_z = scale[2];
    }

    /// Sets the skew part of the decomposition.
    pub fn set_skew(&mut self, skew: [Real; 3])
        ensures
            *final(self) == (QuaternionDecomposition {
                skew_xy: skew[0],
                skew_xz: skew[1],
                skew_yz: skew[2],
                ..*old(self)
            }),
    {
        self.skew_xy = skew[0];
        self.skew_xz = skew[1];
        self.skew_yz = skew[2];
    }

    /// Sets the shift part of the decomposition.
    pub fn set_shift(&mut self, shift: [Real; 3])
        ensures
            *final(self) == (QuaternionDecomposition {
                shift_x: shift[0],
                shift_y: shift[1],
                shift_z: shift[2],
                ..*old(self)
            }),
    {
        self.shift_x = shift[0];
        self.shift_y = shift[1];
        self.shift_z = shift[2];
    }

    /// Sets the translation part of the decomposition.
    pub fn set_translation(&mut self, translation: [Real; 3])
        ensures
            *final(self) == (QuaternionDecomposition {
                translation_x: translation[0],
                translation_y: translation[1],
                translation_z: translation[2],
                ..*old(self)
            }),
    {
        self.translation_x = translation[0];
        self.translation_y = translation[1];
        self.translation_z = translation[2];
    }
}

/// An axis-aligned bounding box, given by its lower and upper corners.
#[derive(Debug, Clone, Copy, PartialEq, Eq, Structural)]
pub struct Bounds {
    pub lower_x: Real,
    pub lower_y: Real,
    pub lower_z: Real,
    pub align0: Real,
    pub upper_x: Real,
    pub upper_y: Real,
    pub upper_z: Real,
    pub align1: Real,
}

/// The bounding boxes at the start and the end of a time range.
#[derive(Debug, Clone, Copy, PartialEq, Eq, Structural)]
pub struct LinearBounds {
    pub bounds0: Bounds,
    pub bounds1: Bounds,
}

/// A box with all its corners at the origin.
pub open spec fn zero_bounds() -> Bounds {
    Bounds {
        lower_x: REAL_ZERO,
        lower_y: REAL_ZERO,
        lower_z: REAL_ZERO,
        align0: REAL_ZERO,
        upper_x: REAL_ZERO,
        upper_y: REAL_ZERO,
        upper_z: REAL_ZERO,
        align1: REAL_ZERO,
    }
}

impl Default for Bounds {
    fn default() -> (b: Self)
        ensures
            b == (Bounds {
                lower_x: REAL_INFINITY,
                lower_y: REAL_INFINITY,
                lower_z: REAL_INFINITY,
                align0: REAL_ZERO,
                upper_x: REAL_INFINITY,
                upper_y: REAL_INFINITY,
                upper_z: REAL_INFINITY,
                align1: REAL_ZERO,
            }),
    {
        Bounds {
            lower_x: REAL_INFINITY,
            lower_y: REAL_INFINITY,
            lower_z: REAL_INFINITY,
            align0: REAL_ZERO,
            upper_x: REAL_INFINITY,
            upper_y: REAL_INFINITY,
            upper_z: REAL_INFINITY,
            align1: REAL_ZERO,
        }
    }
}

impl Bounds {
    /// Returns the lower bounds of the bounding box.
    pub fn lower(&self) -> (r: [Real; 3])
        ensures
            r@ == seq![self.lower_x, self.lower_y, self.lower_z],
    {
        [self.lower_x, self.lower_y, self.lower_z]
    }

    /// Returns the upper bounds of the bounding box.
    pub fn upper(&self) -> (r: [Real; 3])
        ensures
            r@ == seq![self.upper_x, self.upper_y, self.upper_z],
    {
        [self.upper_x, self.upper_y, self.upper_z]
    }

    /// A box with all its corners at the origin.
    pub fn zero() -> (b: Bounds)
        ensures
            b == zero_bounds(),
    {
        Bounds {
            lower_x: REAL_ZERO,
            lower_y: REAL_ZERO,
            lower_z: REAL_ZERO,
            align0: REAL_ZERO,
            upper_x: REAL_ZERO,
            upper_y: REAL_ZERO,
            upper_z: REAL_ZERO,
            align1: REAL_ZERO,
        }
    }
}

/// The identity scales by one and rotates by the unit quaternion; all else of it is
/// zero, as is every corner of the zero box.
pub proof fn lemma_identity_and_zero()
    ensures
        ({
            let q = identity_transform();
            let one = 0x3f80_0000u32;
            &&& q.scale_x == one && q.scale_y == one && q.scale_z == one
            &&& q.skew_xy == 0 && q.skew_xz == 0 && q.skew_yz == 0
            &&& q.shift_x == 0 && q.shift_y == 0 && q.shift_z == 0
            &&& q.quaternion_r == one
            &&& q.quaternion_i == 0 && q.quaternion_j == 0 && q.quaternion_k == 0
            &&& q.translation_x == 0 && q.translation_y == 0 && q.translation_z == 0
        }),
        ({
            let b = zero_bounds();
            &&& b.lower_x == 0 && b.lower_y == 0 && b.lower_z == 0
            &&& b.upper_x == 0 && b.upper_y == 0 && b.upper_z == 0
        }),
{
}

/// What is set of a decomposition is what is read of it: each part goes to its own
/// three or four components, in their order, and to no other.
pub proof fn lemma_parts_are_read_as_set(
    q: &mut QuaternionDecomposition,
    three: [Real; 3],
    four: [Real; 4],
    r3: [Real; 3],
    r4: [Real; 4],
)
    ensures
        call_ensures(QuaternionDecomposition::set_scale, (q, three), ()) ==> {
            &&& final(q).scale_x == three[0] && final(q).scale_y == three[1]
            &&& final(q).scale_z == three[2]
            &&& call_ensures(QuaternionDecomposition::scale, (final(q),), r3) ==> r3@ == three@
            &&& call_ensures(QuaternionDecomposition::skew, (final(q),), r3) ==> r3@ == seq![
                old(q).skew_xy,
                old(q).skew_xz,
                old(q).skew_yz,
            ]
            &&& final(q).translation_x == old(q).translation_x
        },
        call_ensures(QuaternionDecomposition::set_skew, (q, three), ()) ==> {
            &&& final(q).skew_xy == three[0] && final(q).skew_xz == three[1]
            &&& final(q).skew_yz == three[2]
            &&& call_ensures(QuaternionDecomposition::skew, (final(q),), r3) ==> r3@ == three@
            &&& call_ensures(QuaternionDecomposition::shift, (final(q),), r3) ==> r3@ == seq![
                old(q).shift_x,
                old(q).shift_y,
                old(q).shift_z,
            ]
        },
        call_ensures(QuaternionDecomposition::set_shift, (q, three), ()) ==> {
            &&& final(q).shift_x == three[0] && final(q).shift_y == three[1]
            &&& final(q).shift_z == three[2]
            &&& call_ensures(QuaternionDecomposition::shift, (final(q),), r3) ==> r3@ == three@
            &&& call_ensures(QuaternionDecomposition::scale, (final(q),), r3) ==> r3@ == seq![
                old(q).scale_x,
                old(q).scale_y,
                old(q).scale_z,
            ]
        },
        call_ensures(QuaternionDecomposition::set_translation, (q, three), ()) ==> {
            &&& final(q).translation_x == three[0] && final(q).translation_y == three[1]
            &&& final(q).translation_z == three[2]
            &&& call_ensures(QuaternionDecomposition::quaternion, (final(q),), r4) ==> r4@ == seq![
                old(q).quaternion_r,
                old(q).quaternion_i,
                old(q).quaternion_j,
                old(q).quaternion_k,
            ]
        },
        call_ensures(QuaternionDecomposition::set_quaternion, (q, four), ()) ==> {
            &&& final(q).quaternion_r == four[0] && final(q).quaternion_i == four[1]
            &&& final(q).quaternion_j == four[2] && final(q).quaternion_k == four[3]
            &&& call_ensures(QuaternionDecomposition::quaternion, (final(q),), r4) ==> r4@ == four@
            &&& final(q).translation_x == old(q).translation_x
        },
{
}

/// The corners of a box are its own lower and upper components.
pub proof fn lemma_corners_of_a_box(b: &Bounds, lower: [Real; 3], upper: [Real; 3])
    requires
        call_ensures(Bounds::lower, (b,), lower),
        call_ensures(Bounds::upper, (b,), upper),
    ensures
        lower@ == seq![b.lower_x, b.lower_y, b.lower_z],
        upper@ == seq![b.upper_x, b.upper_y, b.upper_z],
{
}

/// The identity scales every axis by one, turns by nothing and moves nothing; it is what
/// a decomposition starts as. A box starts as one that lies at infinity, or at zero.
pub proof fn lemma_transforms_start_as_identity(
    made: QuaternionDecomposition,
    start: QuaternionDecomposition,
    far: Bounds,
    zero: Bounds,
)
    requires
        call_ensures(QuaternionDecomposition::identity, (), made),
        call_ensures(<QuaternionDecomposition as Default>::default, (), start),
        call_ensures(<Bounds as Default>::default, (), far),
        call_ensures(Bounds::zero, (), zero),
    ensures
        start == made,
        made.scale_x == 0x3f80_0000u32 && made.scale_y == 0x3f80_0000u32,
        made.scale_z == 0x3f80_0000u32 && made.quaternion_r == 0x3f80_0000u32,
        made.quaternion_i == 0 && made.quaternion_j == 0 && made.quaternion_k == 0,
        made.skew_xy == 0 && made.skew_xz == 0 && made.skew_yz == 0,
        made.shift_x == 0 && made.shift_y == 0 && made.shift_z == 0,
        made.translation_x == 0 && made.translation_y == 0 && made.translation_z == 0,
        far.lower_x == 0x7f80_0000u32 && far.lower_y == 0x7f80_0000u32,
        far.lower_z == 0x7f80_0000u32 && far.upper_x == 0x7f80_0000u32,
        far.upper_y == 0x7f80_0000u32 && far.upper_z == 0x7f80_0000u32,
        zero.lower_x == 0 && zero.lower_y == 0 && zero.lower_z == 0,
        zero.upper_x == 0 && zero.upper_y == 0 && zero.upper_z == 0,
{
}

} // verus!
