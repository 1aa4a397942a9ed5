//! Lane masks: which lanes of a packet take part in a query.

use vstd::prelude::*;

verus! {

/// Validity mask value for rays or hits.
#[derive(Debug, Clone, Copy, PartialEq, Eq, Structural, PartialOrd, Ord, Hash)]
pub enum ValidMask {
    /// The lane is active: the ray/hit is processed. The native value is `-1`.
    Valid,
    /// The lane is inactive: the ray/hit is skipped and left untouched. The
    /// native value is `0`.
    Invalid,
}

impl ValidMask {
    /// The native value of a mask.
    pub open spec fn value(self) -> i32 {
        match self {
            ValidMask::Valid => (-1) as i32,
            ValidMask::Invalid => 0,
        }
    }

    /// The other mask value.
    pub open spec fn flipped(self) -> ValidMask {
        match self {
            ValidMask::Valid => ValidMask::Invalid,
            ValidMask::Invalid => ValidMask::Valid,
        }
    }

    /// Executable form of [`value`](Self::value).
    pub fn to_native(self) -> (v: i32)
        ensures
            v == self.value(),
    {
        match self {
            ValidMask::Valid => -1,
            ValidMask::Invalid => 0,
        }
    }
}

impl core::ops::Not for ValidMask {
    type Output = ValidMask;

    fn not(self) -> (r: ValidMask) {
        match self {
            ValidMask::Valid => ValidMask::Invalid,
            ValidMask::Invalid => ValidMask::Valid,
        }
    }
}

impl vstd::std_specs::ops::NotSpecImpl for ValidMask {
    open spec fn obeys_not_spec() -> bool {
        true
    }

    open spec fn not_req(self) -> bool {
        true
    }

    open spec fn not_spec(self) -> ValidMask {
        self.flipped()
    }
}

impl core::ops::Not for &ValidMask {
    type Output = ValidMask;

    fn not(self) -> (r: ValidMask) {
        core::ops::Not::not(*self)
    }
}

impl vstd::std_specs::ops::NotSpecImpl for &ValidMask {
    open spec fn obeys_not_spec() -> bool {
        true
    }

    open spec fn not_req(self) -> bool {
        true
    }

    open spec fn not_spec(self) -> ValidMask {
        self.flipped()
    }
}

impl PartialEq<i32> for ValidMask {
    fn eq(&self, other: &i32) -> (r: bool) {
        *other == self.to_native()
    }
}

impl vstd::std_specs::cmp::PartialEqSpecImpl<i32> for ValidMask {
    open spec fn obeys_eq_spec() -> bool {
        true
    }

    open spec fn eq_spec(&self, other: &i32) -> bool {
        *other == self.value()
    }
}

impl PartialEq<ValidMask> for i32 {
    fn eq(&self, other: &ValidMask) -> (r: bool) {
        *self == other.to_native()
    }
}

impl vstd::std_specs::cmp::PartialEqSpecImpl<ValidMask> for i32 {
    open spec fn obeys_eq_spec() -> bool {
        true
    }

    open spec fn eq_spec(&self, other: &ValidMask) -> bool {
        *self == other.value()
    }
}

/// A packet mask of `N` lanes, aligned to 16 bytes.
#[derive(Debug, Clone, Copy)]
pub struct ValidMaskN<const N: usize> {
    lanes: [ValidMask; N],
    /// Takes no space; raises the alignment of the mask to that of `u128`.
    align: [u128; 0],
}

impl<const N: usize> View for ValidMaskN<N> {
    type V = Seq<ValidMask>;

    closed spec fn view(&self) -> Seq<ValidMask> {
        self.lanes@
    }
}

/// The native values of a mask.
pub open spec fn native_mask(lanes: Seq<ValidMask>) -> Seq<i32> {
    lanes.map_values(|m: ValidMask| m.value())
}

impl<const N: usize> ValidMaskN<N> {
    /// A mask with every lane active.
    pub fn all_active() -> (m: Self)
        ensures
            m@ == Seq::new(N as nat, |i: int| ValidMask::Valid),
    {
        ValidMaskN { lanes: [ValidMask::Valid; N], align: [] }
    }

    /// A mask with the given lanes.
    pub fn new(lanes: [ValidMask; N]) -> (m: Self)
        ensures
            m@ == lanes@,
    {
        ValidMaskN { lanes, align: [] }
    }

    /// The lanes, for reading.
    pub fn lanes(&self) -> (l: &[ValidMask; N])
        ensures
            l@ == self@,
    {
        &self.lanes
    }

    /// The lanes, for writing.
    pub fn lanes_mut(&mut self) -> (l: &mut [ValidMask; N])
        ensures
            l@ == old(self)@,
            final(self)@ == final(l)@,
    {
        &mut self.lanes
    }

    /// The lanes as the native library reads them: `-1` active, `0` inactive.
    pub fn native(&self) -> (w: [i32; N])
        ensures
            w@ == native_mask(self@),
    {
        let mut w: [i32; N] = [0; N];
        let mut i: usize = 0;
        while i < N
            invariant
                i <= N,
                forall|j: int| 0 <= j < i ==> w[j] == self@[j].value(),
            decreases N - i,
        {
            w[i] = self.lanes[i].to_native();
            i += 1;
        }
        w
    }
}

impl<const N: usize> From<[ValidMask; N]> for ValidMaskN<N> {
    fn from(lanes: [ValidMask; N]) -> (m: Self)
        ensures
            m@ == lanes@,
    {
        ValidMaskN { lanes, align: [] }
    }
}

impl<const N: usize> vstd::std_specs::convert::FromSpecImpl<[ValidMask; N]> for ValidMaskN<N> {
    closed spec fn obeys_from_spec() -> bool {
        true
    }

    closed spec fn from_spec(lanes: [ValidMask; N]) -> Self {
        ValidMaskN { lanes, align: [] }
    }
}

/// Negating a mask value twice gives it back, and the two values stay apart.
pub proof fn lemma_not_is_an_involution(m: ValidMask)
    ensures
        m.flipped().flipped() == m,
        m.flipped() != m,
        m.flipped().value() != m.value(),
{
}

/// An active lane has all bits set in the native mask, an inactive one none, and
/// every lane has its own place.
pub proof fn lemma_native_masks(lanes: Seq<ValidMask>, i: int)
    requires
        0 <= i < lanes.len(),
    ensures
        native_mask(lanes).len() == lanes.len(),
        lanes[i] == ValidMask::Valid ==> native_mask(lanes)[i] == -1,
        lanes[i] == ValidMask::Invalid ==> native_mask(lanes)[i] == 0,
        lanes[i].value() == native_mask(lanes)[i],
        lanes[i].flipped() == ValidMask::Valid <==> lanes[i] == ValidMask::Invalid,
{
}

/// A mask is written out lane by lane, -1 for a lane that is in it and 0 for one that is
/// not; the other value of a mask is the one it does not have; and a mask is equal to
/// the number it is written as, and to no other.
pub proof fn lemma_masks_are_written_lane_by_lane<const N: usize>(
    m: &ValidMaskN<N>,
    w: [i32; N],
    all: ValidMaskN<N>,
    i: int,
    x: ValidMask,
    other: ValidMask,
    number: i32,
    left: bool,
    right: bool,
)
    requires
        call_ensures(ValidMaskN::<N>::native, (m,), w),
        call_ensures(ValidMaskN::<N>::all_active, (), all),
        call_ensures(<ValidMask as core::ops::Not>::not, (x,), other),
        call_ensures(<ValidMask as PartialEq<i32>>::eq, (&x, &number), left),
        call_ensures(<i32 as PartialEq<ValidMask>>::eq, (&number, &x), right),
        0 <= i < N,
    ensures
        m@[i] is Valid <==> w@[i] == -1,
        m@[i] is Invalid <==> w@[i] == 0,
        all@[i] is Valid,
        x is Valid <==> other is Invalid,
        x is Invalid <==> other is Valid,
        x is Valid ==> (left <==> number == -1),
        x is Invalid ==> (left <==> number == 0),
        right <==> left,
{
    assert(w@.len() == N);
}

/// A mask has the lanes it was made of.
pub proof fn lemma_masks_have_their_lanes<const N: usize>(
    lanes: [ValidMask; N],
    made: ValidMaskN<N>,
    read: &[ValidMask; N],
    i: int,
)
    requires
        call_ensures(ValidMaskN::<N>::new, (lanes,), made),
        call_ensures(ValidMaskN::<N>::lanes, (&made,), read),
        0 <= i < N,
    ensures
        made@.len() == N,
        made@[i] == lanes[i],
        read[i] == lanes[i],
{
    assert(lanes@.len() == N);
    assert(read[i] == read@[i]);
}

} // verus!
