//! Arguments of the user-geometry callbacks: the packet, its validity mask, and
//! the staging of candidate hits for the native filters.

use vstd::prelude::*;

use crate::context::AsIntersectContext;
use crate::ray::packet::{hit_lane, ray_lane, with_hit, with_tfar, HIT_WORDS, RAY_WORDS};
use crate::ray::{Hit, HitLane, Ray};
use crate::sys::{Real, REAL_NEG_INFINITY};

verus! {

/// Marker trait for types usable as callback user data.
pub trait UserData: Send + Sync + 'static {

}

impl<T: Send + Sync + 'static> UserData for T {

}

/// The widest packet that a callback receives.
pub const MAX_PACKET_WIDTH: usize = 16;

/// Validity masks of the lanes of a packet.
///
/// - 0 means the ray/hit is invalid
/// - -1 means the ray/hit is valid
pub struct ValidityN<'a> {
    pub lanes: &'a mut [i32],
}

/// Reads the masks of a [`ValidityN`] in order.
pub struct ValidityNIter<'a, 'b> {
    pub inner: &'b ValidityN<'a>,
    pub cur: usize,
}

/// Hands out the masks of a [`ValidityN`] for writing, in order.
pub struct ValidityNIterMut<'a, 'b> {
    pub inner: &'b mut ValidityN<'a>,
    pub cur: usize,
}

impl<'a> View for ValidityN<'a> {
    type V = Seq<i32>;

    open spec fn view(&self) -> Seq<i32> {
        self.lanes@
    }
}

impl<'a> ValidityN<'a> {
    /// The masks held in `lanes`.
    pub fn new(lanes: &'a mut [i32]) -> (v: ValidityN<'a>)
        ensures
            v@ == old(lanes)@,
            final(v.lanes)@ == final(lanes)@,
    {
        ValidityN { lanes }
    }

    /// Reads the masks in order.
    pub fn iter<'b>(&'b self) -> (it: ValidityNIter<'a, 'b>)
        ensures
            it.inner == self,
            it.cur == 0,
    {
        ValidityNIter { inner: self, cur: 0 }
    }

    /// Hands out the masks for writing, in order.
    pub fn iter_mut<'b>(&'b mut self) -> (it: ValidityNIterMut<'a, 'b>)
        ensures
            *it.inner == *old(self),
            *final(it.inner) == *final(self),
            it.cur == 0,
    {
        ValidityNIterMut { inner: self, cur: 0 }
    }

    /// Number of lanes.
    pub fn len(&self) -> (n: usize)
        ensures
            n == self@.len(),
    {
        self.lanes.len()
    }

    /// Whether there is no lane.
    pub fn is_empty(&self) -> (r: bool)
        ensures
            r == (self@.len() == 0),
    {
        self.lanes.len() == 0
    }

    /// The mask of lane `i`.
    pub fn get_unchecked(&self, i: usize) -> (m: i32)
        requires
            i < self@.len(),
        ensures
            m == self@[i as int],
    {
        self.lanes[i]
    }

    /// Sets the mask of lane `i`.
    pub fn set_unchecked(&mut self, i: usize, m: i32)
        requires
            i < old(self)@.len(),
        ensures
            final(self)@ == old(self)@.update(i as int, m),
            final(final(self).lanes)@ == final(old(self).lanes)@,
    {
        self.lanes[i] = m;
    }

    /// The lanes that take part, in order: those whose mask is not 0.
    pub fn active_lanes(&self) -> (v: Vec<usize>)
        ensures
            v@ == active(self@, self@.len() as int),
    {
        let mut v: Vec<usize> = Vec::new();
        let mut i: usize = 0;
        while i < self.lanes.len()
            invariant
                i <= self@.len(),
                v@ == active(self@, i as int),
            decreases self@.len() - i,
        {
            if self.lanes[i] != 0 {
                v.push(i);
            }
            i += 1;
        }
        v
    }
}

/// The lanes before `upto` whose mask is not 0.
pub open spec fn active(masks: Seq<i32>, upto: int) -> Seq<usize>
    decreases upto,
{
    if upto <= 0 {
        Seq::empty()
    } else if masks[upto - 1] != 0 {
        active(masks, upto - 1).push((upto - 1) as usize)
    } else {
        active(masks, upto - 1)
    }
}

impl<'a> core::ops::Index<usize> for ValidityN<'a> {
    type Output = i32;

    fn index(&self, index: usize) -> (m: &i32)
        ensures
            *m == self@[index as int],
    {
        &self.lanes[index]
    }
}

impl<'a> vstd::std_specs::core::IndexSpecImpl<usize> for ValidityN<'a> {
    open spec fn index_req(&self, index: &usize) -> bool {
        *index < self@.len()
    }
}

impl<'a, 'b> ValidityNIter<'a, 'b> {
    /// The next mask, or `None` once all have been read.
    pub fn next(&mut self) -> (r: Option<i32>)
        ensures
            final(self).inner == old(self).inner,
            match r {
                Some(m) => {
                    &&& old(self).cur < old(self).inner@.len()
                    &&& m == old(self).inner@[old(self).cur as int]
                    &&& final(self).cur == old(self).cur + 1
                },
                None => {
                    &&& old(self).cur >= old(self).inner@.len()
                    &&& final(self).cur == old(self).cur
                },
            },
    {
        if self.cur < self.inner.lanes.len() {
            let m: i32 = self.inner.lanes[self.cur];
            self.cur = self.cur + 1;
            Some(m)
        } else {
            None
        }
    }
}

impl<'a, 'b> ValidityNIterMut<'a, 'b> {
    /// The next mask for writing, or `None` once all have been handed out. What
    /// is written through it becomes the mask of its lane; the other masks stay.
    pub fn next(&mut self) -> (r: Option<&mut i32>)
        ensures
            match r {
                Some(m) => {
                    &&& old(self).cur < old(self).inner@.len()
                    &&& *m == old(self).inner@[old(self).cur as int]
                    &&& final(self).cur == old(self).cur + 1
                    &&& final(self).inner@ == old(self).inner@.update(
                        old(self).cur as int,
                        *final(m),
                    )
                },
                None => {
                    &&& old(self).cur >= old(self).inner@.len()
                    &&& final(self).cur == old(self).cur
                    &&& final(self).inner@ == old(self).inner@
                },
            },
            *final(final(self).inner) == *final(old(self).inner),
            final(final(self).inner.lanes)@ == final(old(self).inner.lanes)@,
    {
        if self.cur < self.inner.lanes.len() {
            let i: usize = self.cur;
            self.cur = self.cur + 1;
            Some(&mut self.inner.lanes[i])
        } else {
            None
        }
    }
}

/// Arguments handed to a user-geometry **intersect** callback.
///
/// The packet is one block of words: the ray columns, then the hit columns.
pub struct IntersectFunctionNArgs<'a, C: AsIntersectContext, D: UserData> {
    pub rayhit: &'a mut [u32],
    pub n: usize,
    pub valid_n: ValidityN<'a>,
    pub context: &'a mut C,
    pub geom_id: u32,
    pub prim_id: u32,
    pub user_data: Option<&'a D>,
}

/// Arguments handed to a user-geometry **occluded** callback. The packet has no
/// hit columns.
pub struct OccludedFunctionNArgs<'a, C: AsIntersectContext, D: UserData> {
    pub rays: &'a mut [u32],
    pub n: usize,
    pub valid_n: ValidityN<'a>,
    pub context: &'a mut C,
    pub geom_id: u32,
    pub prim_id: u32,
    pub user_data: Option<&'a D>,
}

/// What a native filter is called with for one candidate: its mask and the number
/// of lanes. The ray and the candidate hit go along in buffers of their own.
#[derive(Debug, Clone, Copy, PartialEq, Eq, Structural)]
pub struct SingleFilter {
    pub valid: i32,
    pub n: u32,
}

/// The filter call for one candidate: a single lane, active.
pub open spec fn single_filter() -> SingleFilter {
    SingleFilter { valid: (-1) as i32, n: 1 }
}

/// What a native filter is called with for a whole packet: the number of lanes,
/// and the candidate hits laid out as a packet of their own. The masks and the
/// packet's rays go along.
#[derive(Debug, Clone, Copy)]
pub struct PacketFilter {
    pub n: u32,
    pub hits: [u32; 128],
}

/// A scratch block for the candidate hits of the widest packet.
pub const SCRATCH_WORDS: usize = 128;

/// The scratch block after the lanes before `upto` have been staged: the
/// candidates of the active ones are in place, everything else is zero.
pub open spec fn staged(hits: Seq<Hit>, valid: Seq<i32>, upto: int) -> Seq<u32>
    decreases upto,
{
    if upto <= 0 {
        Seq::new(SCRATCH_WORDS as nat, |w: int| 0u32)
    } else if valid[upto - 1] == 0 {
        staged(hits, valid, upto - 1)
    } else {
        with_hit(
            staged(hits, valid, upto - 1),
            0,
            hits.len(),
            upto - 1,
            hits[upto - 1].as_lane(),
        )
    }
}

/// Lays out the candidates of the active lanes as a hit packet of its own.
pub fn stage_candidates(hits: &[Hit], valid: &[i32]) -> (scratch: [u32; 128])
    requires
        hits@.len() == valid@.len(),
        hits@.len() <= MAX_PACKET_WIDTH,
    ensures
        scratch@ == staged(hits@, valid@, hits@.len() as int),
{
    let n: usize = hits.len();
    let mut scratch: [u32; 128] = [0; 128];
    let mut i: usize = 0;
    while i < n
        invariant
            n == hits@.len(),
            n == valid@.len(),
            n <= MAX_PACKET_WIDTH,
            i <= n,
            scratch@ == staged(hits@, valid@, i as int),
        decreases n - i,
    {
        if valid[i] != 0 {
            scratch[i] = hits[i].Ng_x;
            scratch[n + i] = hits[i].Ng_y;
            scratch[2 * n + i] = hits[i].Ng_z;
            scratch[3 * n + i] = hits[i].u;
            scratch[4 * n + i] = hits[i].v;
            scratch[5 * n + i] = hits[i].primID;
            scratch[6 * n + i] = hits[i].geomID;
            scratch[7 * n + i] = hits[i].instID[0];
        }
        i += 1;
    }
    scratch
}

/// Takes the candidates of the surviving lanes back out of the scratch block.
/// The candidates of skipped or rejected lanes stay as they were.
pub fn take_candidates(scratch: &[u32; 128], valid: &[i32], hits: &mut [Hit])
    requires
        old(hits)@.len() == valid@.len(),
        old(hits)@.len() <= MAX_PACKET_WIDTH,
    ensures
        final(hits)@.len() == old(hits)@.len(),
        forall|i: int|
            0 <= i < valid@.len() ==> if valid@[i] == 0 {
                #[trigger] final(hits)@[i] == old(hits)@[i]
            } else {
                final(hits)@[i].as_lane() == hit_lane(scratch@, valid@.len(), i)
            },
{
    let n: usize = valid.len();
    let mut i: usize = 0;
    while i < n
        invariant
            n == valid@.len(),
            n == old(hits)@.len(),
            hits@.len() == n,
            n <= MAX_PACKET_WIDTH,
            i <= n,
            forall|j: int|
                0 <= j < i ==> if valid@[j] == 0 {
                    #[trigger] hits@[j] == old(hits)@[j]
                } else {
                    hits@[j].as_lane() == hit_lane(scratch@, n as nat, j)
                },
            forall|j: int| i <= j < n ==> #[trigger] hits@[j] == old(hits)@[j],
        decreases n - i,
    {
        if valid[i] != 0 {
            hits[i] = Hit {
                Ng_x: scratch[i],
                Ng_y: scratch[n + i],
                Ng_z: scratch[2 * n + i],
                u: scratch[3 * n + i],
                v: scratch[4 * n + i],
                primID: scratch[5 * n + i],
                geomID: scratch[6 * n + i],
                instID: [scratch[7 * n + i]],
            };
        }
        i += 1;
    }
}

impl<'a, C: AsIntersectContext, D: UserData> IntersectFunctionNArgs<'a, C, D> {
    /// The packet and the mask have one entry per lane.
    pub open spec fn wf(&self) -> bool {
        &&& self.rayhit.len() == (RAY_WORDS + HIT_WORDS) * self.n
        &&& self.valid_n@.len() == self.n
    }

    /// The ray in lane `i`.
    pub open spec fn ray_at(&self, i: int) -> Ray {
        ray_lane(self.rayhit@, self.n as nat, i)
    }

    /// The hit in lane `i`.
    pub open spec fn hit_at(&self, i: int) -> HitLane {
        hit_lane(self.rayhit@.skip(RAY_WORDS * self.n), self.n as nat, i)
    }

    /// The context of the query.
    pub open spec fn query_context(&self) -> C {
        *self.context
    }

    /// Everything but the words of the packet is as in `pre`.
    pub open spec fn same_outside_packet(&self, pre: &Self) -> bool {
        &&& self.n == pre.n
        &&& self.geom_id == pre.geom_id
        &&& self.prim_id == pre.prim_id
        &&& self.user_data == pre.user_data
        &&& self.valid_n == pre.valid_n
        &&& self.context == pre.context
    }

    /// Number of rays in the packet.
    pub fn len(&self) -> (n: usize)
        ensures
            n == self.n,
    {
        self.n
    }

    /// Whether the packet is empty.
    pub fn is_empty(&self) -> (r: bool)
        ensures
            r == (self.n == 0),
    {
        self.n == 0
    }

    /// Per-ray validity mask (`0` = inactive lane, skip it; `-1` = active).
    pub fn valid_n(&self) -> (v: &ValidityN<'a>)
        ensures
            *v == self.valid_n,
    {
        &self.valid_n
    }

    /// Mutable validity mask.
    pub fn valid_n_mut(&mut self) -> (v: &mut ValidityN<'a>)
        ensures
            *v == old(self).valid_n,
            *final(self) == (IntersectFunctionNArgs { valid_n: *final(v), ..*old(self) }),
    {
        &mut self.valid_n
    }

    /// The intersection context.
    pub fn context(&self) -> (c: &C)
        ensures
            *c == self.query_context(),
    {
        &*self.context
    }

    /// The intersection context, mutably.
    pub fn context_mut(&mut self) -> (c: &mut C)
        ensures
            *c == old(self).query_context(),
            final(self).query_context() == *final(c),
            *final(final(self).context) == *final(old(self).context),
            final(self).rayhit == old(self).rayhit,
            final(self).valid_n == old(self).valid_n,
            final(self).n == old(self).n,
            final(self).geom_id == old(self).geom_id,
            final(self).prim_id == old(self).prim_id,
            final(self).user_data == old(self).user_data,
    {
        &mut *self.context
    }

    /// Geometry ID being tested.
    pub fn geom_id(&self) -> (id: u32)
        ensures
            id == self.geom_id,
    {
        self.geom_id
    }

    /// Primitive ID being tested.
    pub fn prim_id(&self) -> (id: u32)
        ensures
            id == self.prim_id,
    {
        self.prim_id
    }

    /// Per-callback user data, if any is bound.
    pub fn user_data(&self) -> (d: Option<&D>)
        ensures
            d == self.user_data,
    {
        self.user_data
    }

    /// Gathers lane `i` of the packet into a single ray.
    pub fn ray(&self, i: usize) -> (r: Ray)
        requires
            self.wf(),
            i < self.n,
        ensures
            r == self.ray_at(i as int),
    {
        let n: usize = self.n;
        Ray {
            org_x: self.rayhit[i],
            org_y: self.rayhit[n + i],
            org_z: self.rayhit[2 * n + i],
            tnear: self.rayhit[3 * n + i],
            dir_x: self.rayhit[4 * n + i],
            dir_y: self.rayhit[5 * n + i],
            dir_z: self.rayhit[6 * n + i],
            time: self.rayhit[7 * n + i],
            tfar: self.rayhit[8 * n + i],
            mask: self.rayhit[9 * n + i],
            id: self.rayhit[10 * n + i],
            flags: self.rayhit[11 * n + i],
        }
    }

    /// Sets the far end of the ray in lane `i`: to a candidate distance before a
    /// filter, or back after a rejection.
    pub fn set_tfar(&mut self, i: usize, tfar: Real)
        requires
            old(self).wf(),
            i < old(self).n,
        ensures
            final(self).wf(),
            final(self).rayhit@ == with_tfar(old(self).rayhit@, old(self).n as nat, i as int, tfar),
            final(self).same_outside_packet(old(self)),
            final(final(self).rayhit)@ == final(old(self).rayhit)@,
    {
        self.rayhit[8 * self.n + i] = tfar;
    }

    /// Writes an accepted hit, and the far end of its ray, to lane `i` of the
    /// packet.
    pub fn commit_hit(&mut self, i: usize, ray: &Ray, hit: &Hit)
        requires
            old(self).wf(),
            i < old(self).n,
        ensures
            final(self).wf(),
            final(self).rayhit@ == with_hit(
                with_tfar(old(self).rayhit@, old(self).n as nat, i as int, ray.tfar),
                RAY_WORDS * old(self).n,
                old(self).n as nat,
                i as int,
                hit.as_lane(),
            ),
            final(self).same_outside_packet(old(self)),
            final(final(self).rayhit)@ == final(old(self).rayhit)@,
    {
        let n: usize = self.n;
        let base: usize = RAY_WORDS * n;
        self.rayhit[8 * n + i] = ray.tfar;
        self.rayhit[base + i] = hit.Ng_x;
        self.rayhit[base + n + i] = hit.Ng_y;
        self.rayhit[base + 2 * n + i] = hit.Ng_z;
        self.rayhit[base + 3 * n + i] = hit.u;
        self.rayhit[base + 4 * n + i] = hit.v;
        self.rayhit[base + 5 * n + i] = hit.primID;
        self.rayhit[base + 6 * n + i] = hit.geomID;
        self.rayhit[base + 7 * n + i] = hit.instID[0];
    }

    /// The native filter call for one candidate of this packet.
    pub fn filter_request(&self) -> (f: SingleFilter)
        ensures
            f == single_filter(),
    {
        SingleFilter { valid: -1, n: 1 }
    }

    /// Whether the candidate survived: the filters left its mask set.
    pub fn filter_intersection(&self, valid: i32) -> (r: bool)
        ensures
            r == (valid != 0),
    {
        valid != 0
    }

    /// Lays out the candidate hits of the whole packet for one filter call. The
    /// packet's own hit columns are left alone, so that a rejected lane never
    /// leaves a stale hit there.
    pub fn filter_intersection_n(&self, hits: &[Hit], valid: &[i32]) -> (f: PacketFilter)
        requires
            self.n <= MAX_PACKET_WIDTH,
            hits@.len() == self.n,
            valid@.len() == self.n,
        ensures
            f.n == self.n,
            f.hits@ == staged(hits@, valid@, self.n as int),
    {
        PacketFilter { n: self.n as u32, hits: stage_candidates(hits, valid) }
    }

    /// Takes the candidates back after the filter call, which may have changed
    /// those of the surviving lanes and may have cleared masks.
    pub fn finish_filter_intersection_n(
        &self,
        scratch: &[u32; 128],
        valid: &[i32],
        hits: &mut [Hit],
    )
        requires
            self.n <= MAX_PACKET_WIDTH,
            old(hits)@.len() == self.n,
            valid@.len() == self.n,
        ensures
            final(hits)@.len() == self.n,
            forall|i: int|
                0 <= i < self.n ==> if valid@[i] == 0 {
                    #[trigger] final(hits)@[i] == old(hits)@[i]
                } else {
                    final(hits)@[i].as_lane() == hit_lane(scratch@, self.n as nat, i)
                },
    {
        take_candidates(scratch, valid, hits)
    }
}

impl<'a, C: AsIntersectContext, D: UserData> OccludedFunctionNArgs<'a, C, D> {
    /// The packet and the mask have one entry per lane.
    pub open spec fn wf(&self) -> bool {
        &&& self.rays.len() == RAY_WORDS * self.n
        &&& self.valid_n@.len() == self.n
    }

    /// The ray in lane `i`.
    pub open spec fn ray_at(&self, i: int) -> Ray {
        ray_lane(self.rays@, self.n as nat, i)
    }

    /// The context of the query.
    pub open spec fn query_context(&self) -> C {
        *self.context
    }

    /// Everything but the words of the packet is as in `pre`.
    pub open spec fn same_outside_packet(&self, pre: &Self) -> bool {
        &&& self.n == pre.n
        &&& self.geom_id == pre.geom_id
        &&& self.prim_id == pre.prim_id
        &&& self.user_data == pre.user_data
        &&& self.valid_n == pre.valid_n
        &&& self.context == pre.context
    }

    /// Number of rays in the packet.
    pub fn len(&self) -> (n: usize)
        ensures
            n == self.n,
    {
        self.n
    }

    /// Whether the packet is empty.
    pub fn is_empty(&self) -> (r: bool)
        ensures
            r == (self.n == 0),
    {
        self.n == 0
    }

    /// Per-ray validity mask (`0` = inactive lane, skip it; `-1` = active).
    pub fn valid_n(&self) -> (v: &ValidityN<'a>)
        ensures
            *v == self.valid_n,
    {
        &self.valid_n
    }

    /// Mutable validity mask.
    pub fn valid_n_mut(&mut self) -> (v: &mut ValidityN<'a>)
        ensures
            *v == old(self).valid_n,
            *final(self) == (OccludedFunctionNArgs { valid_n: *final(v), ..*old(self) }),
    {
        &mut self.valid_n
    }

    /// The intersection context.
    pub fn context(&self) -> (c: &C)
        ensures
            *c == self.query_context(),
    {
        &*self.context
    }

    /// The intersection context, mutably.
    pub fn context_mut(&mut self) -> (c: &mut C)
        ensures
            *c == old(self).query_context(),
            final(self).query_context() == *final(c),
            *final(final(self).context) == *final(old(self).context),
            final(self).rays == old(self).rays,
            final(self).valid_n == old(self).valid_n,
            final(self).n == old(self).n,
            final(self).geom_id == old(self).geom_id,
            final(self).prim_id == old(self).prim_id,
            final(self).user_data == old(self).user_data,
    {
        &mut *self.context
    }

    /// Geometry ID being tested.
    pub fn geom_id(&self) -> (id: u32)
        ensures
            id == self.geom_id,
    {
        self.geom_id
    }

    /// Primitive ID being tested.
    pub fn prim_id(&self) -> (id: u32)
        ensures
            id == self.prim_id,
    {
        self.prim_id
    }

    /// Per-callback user data, if any is bound.
    pub fn user_data(&self) -> (d: Option<&D>)
        ensures
            d == self.user_data,
    {
        self.user_data
    }

    /// Gathers lane `i` of the packet into a single ray.
    pub fn ray(&self, i: usize) -> (r: Ray)
        requires
            self.wf(),
            i < self.n,
        ensures
            r == self.ray_at(i as int),
    {
        let n: usize = self.n;
        Ray {
            org_x: self.rays[i],
            org_y: self.rays[n + i],
            org_z: self.rays[2 * n + i],
            tnear: self.rays[3 * n + i],
            dir_x: self.rays[4 * n + i],
            dir_y: self.rays[5 * n + i],
            dir_z: self.rays[6 * n + i],
            time: self.rays[7 * n + i],
            tfar: self.rays[8 * n + i],
            mask: self.rays[9 * n + i],
            id: self.rays[10 * n + i],
            flags: self.rays[11 * n + i],
        }
    }

    /// Sets the far end of the ray in lane `i`: to a candidate distance before a
    /// filter, or back after a rejection.
    pub fn set_tfar(&mut self, i: usize, tfar: Real)
        requires
            old(self).wf(),
            i < old(self).n,
        ensures
            final(self).wf(),
            final(self).rays@ == with_tfar(old(self).rays@, old(self).n as nat, i as int, tfar),
            final(self).same_outside_packet(old(self)),
            final(final(self).rays)@ == final(old(self).rays)@,
    {
        self.rays[8 * self.n + i] = tfar;
    }

    /// Marks lane `i` occluded: its far end becomes negative infinity.
    pub fn set_occluded(&mut self, i: usize)
        requires
            old(self).wf(),
            i < old(self).n,
        ensures
            final(self).wf(),
            final(self).rays@ == with_tfar(
                old(self).rays@,
                old(self).n as nat,
                i as int,
                REAL_NEG_INFINITY,
            ),
            final(self).same_outside_packet(old(self)),
            final(final(self).rays)@ == final(old(self).rays)@,
    {
        self.set_tfar(i, REAL_NEG_INFINITY);
    }

    /// The native filter call for one candidate of this packet.
    pub fn filter_request(&self) -> (f: SingleFilter)
        ensures
            f == single_filter(),
    {
        SingleFilter { valid: -1, n: 1 }
    }

    /// Whether the candidate occluder survived: the filters left its mask set.
    pub fn filter_occlusion(&self, valid: i32) -> (r: bool)
        ensures
            r == (valid != 0),
    {
        valid != 0
    }

    /// Lays out the candidate hits of the whole packet for one filter call.
    pub fn filter_occlusion_n(&self, hits: &[Hit], valid: &[i32]) -> (f: PacketFilter)
        requires
            self.n <= MAX_PACKET_WIDTH,
            hits@.len() == self.n,
            valid@.len() == self.n,
        ensures
            f.n == self.n,
            f.hits@ == staged(hits@, valid@, self.n as int),
    {
        PacketFilter { n: self.n as u32, hits: stage_candidates(hits, valid) }
    }

    /// Takes the candidates back after the filter call, which may have changed
    /// those of the surviving lanes and may have cleared masks.
    pub fn finish_filter_occlusion_n(
        &self,
        scratch: &[u32; 128],
        valid: &[i32],
        hits: &mut [Hit],
    )
        requires
            self.n <= MAX_PACKET_WIDTH,
            old(hits)@.len() == self.n,
            valid@.len() == self.n,
        ensures
            final(hits)@.len() == self.n,
            forall|i: int|
                0 <= i < self.n ==> if valid@[i] == 0 {
                    #[trigger] final(hits)@[i] == old(hits)@[i]
                } else {
                    final(hits)@[i].as_lane() == hit_lane(scratch@, self.n as nat, i)
                },
    {
        take_candidates(scratch, valid, hits)
    }
}

/// The lane of every active candidate reads back from the scratch block as that
/// candidate: a filter that changes nothing changes no candidate.
pub proof fn lemma_staging_round_trip(hits: Seq<Hit>, valid: Seq<i32>, upto: int, j: int)
    requires
        hits.len() == valid.len(),
        hits.len() <= MAX_PACKET_WIDTH,
        0 <= j < upto <= hits.len(),
        valid[j] != 0,
    ensures
        hit_lane(staged(hits, valid, upto), hits.len(), j) == hits[j].as_lane(),
    decreases upto,
{
    lemma_staged_len(hits, valid, upto - 1);
    if valid[upto - 1] == 0 {
        lemma_staging_round_trip(hits, valid, upto - 1, j);
    } else if j < upto - 1 {
        lemma_staging_round_trip(hits, valid, upto - 1, j);
    }
}

/// The scratch block keeps its size.
pub proof fn lemma_staged_len(hits: Seq<Hit>, valid: Seq<i32>, upto: int)
    requires
        upto <= hits.len() <= MAX_PACKET_WIDTH,
    ensures
        staged(hits, valid, upto).len() == SCRATCH_WORDS,
    decreases upto,
{
    if upto > 0 {
        lemma_staged_len(hits, valid, upto - 1);
    }
}

/// Committing a hit gives the lane that hit and that far end, and leaves every
/// other component of the lane and every other lane as they were.
pub proof fn lemma_commit_hit_is_lane_local(
    words: Seq<u32>,
    n: nat,
    i: int,
    j: int,
    tfar: Real,
    h: HitLane,
)
    requires
        words.len() == (RAY_WORDS + HIT_WORDS) * n,
        0 <= i < n,
        0 <= j < n,
    ensures
        ({
            let after = with_hit(with_tfar(words, n, i, tfar), RAY_WORDS * n, n, i, h);
            &&& ray_lane(after, n, j) == (if j == i {
                Ray { tfar, ..ray_lane(words, n, i) }
            } else {
                ray_lane(words, n, j)
            })
            &&& hit_lane(after.skip(RAY_WORDS * n), n, j) == (if j == i {
                h
            } else {
                hit_lane(words.skip(RAY_WORDS * n), n, j)
            })
        }),
{
    assert(RAY_WORDS * n == 12 * n && (RAY_WORDS + HIT_WORDS) * n == 20 * n);
}

/// The active lanes are those whose mask is not zero: in order, each once, and none is
/// missing.
pub proof fn lemma_active_lanes_are_those_with_a_mask(masks: Seq<i32>, upto: int)
    requires
        0 <= upto <= masks.len() <= usize::MAX,
    ensures
        forall|k: int|
            0 <= k < active(masks, upto).len() ==> #[trigger] active(masks, upto)[k] < upto
                && masks[active(masks, upto)[k] as int] != 0,
        forall|j: int, k: int|
            0 <= j < k < active(masks, upto).len() ==> #[trigger] active(masks, upto)[j]
                < #[trigger] active(masks, upto)[k],
        forall|i: usize|
            i < upto && masks[i as int] != 0 ==> #[trigger] active(masks, upto).contains(i),
    decreases upto,
{
    if upto > 0 {
        lemma_active_lanes_are_those_with_a_mask(masks, upto - 1);
        let before = active(masks, upto - 1);
        assert forall|i: usize| i < upto && masks[i as int] != 0 implies #[trigger] active(
            masks,
            upto,
        ).contains(i) by {
            if i < upto - 1 {
                assert(before.contains(i));
                let k = before.index_of(i);
                assert(active(masks, upto)[k] == i);
            } else {
                assert(active(masks, upto)[before.len() as int] == i);
            }
        }
    }
}

/// A filter that is shown one candidate is called with one lane, which is active.
pub proof fn lemma_single_candidates_are_active()
    ensures
        single_filter().n == 1,
        single_filter().valid == -1,
{
}

/// A candidate of an active lane is staged in the native columns of that lane: the
/// normal, the coordinates, and the IDs of the primitive, the geometry and the
/// instance. The words of an inactive lane are zero.
pub proof fn lemma_candidates_are_staged_in_native_columns(
    hits: Seq<Hit>,
    valid: Seq<i32>,
    upto: int,
    j: int,
)
    requires
        hits.len() == valid.len(),
        hits.len() <= 16,
        0 <= j < hits.len(),
        0 <= upto <= hits.len(),
    ensures
        ({
            let n = hits.len() as int;
            let s = staged(hits, valid, upto);
            let shown = j < upto && valid[j] != 0;
            &&& s.len() == 128
            &&& s[j] == (if shown { hits[j].Ng_x } else { 0 })
            &&& s[n + j] == (if shown { hits[j].Ng_y } else { 0 })
            &&& s[2 * n + j] == (if shown { hits[j].Ng_z } else { 0 })
            &&& s[3 * n + j] == (if shown { hits[j].u } else { 0 })
            &&& s[4 * n + j] == (if shown { hits[j].v } else { 0 })
            &&& s[5 * n + j] == (if shown { hits[j].primID } else { 0 })
            &&& s[6 * n + j] == (if shown { hits[j].geomID } else { 0 })
            &&& s[7 * n + j] == (if shown { hits[j].instID[0] } else { 0 })
        }),
    decreases upto,
{
    if upto > 0 {
        lemma_candidates_are_staged_in_native_columns(hits, valid, upto - 1, j);
    }
}

/// A candidate that survived is read from the native columns of its lane.
pub proof fn lemma_candidates_are_taken_from_native_columns(
    scratch: Seq<u32>,
    n: nat,
    i: int,
    hit: Hit,
)
    requires
        scratch.len() >= 8 * n,
        0 <= i < n,
        hit.as_lane() == hit_lane(scratch, n, i),
    ensures
        hit.Ng_x == scratch[i],
        hit.Ng_y == scratch[n + i],
        hit.Ng_z == scratch[2 * n + i],
        hit.u == scratch[3 * n + i],
        hit.v == scratch[4 * n + i],
        hit.primID == scratch[5 * n + i],
        hit.geomID == scratch[6 * n + i],
        hit.instID[0] == scratch[7 * n + i],
{
}

/// A committed hit stands in the native packet: behind the twelve columns of the rays,
/// the normal, the coordinates, and the IDs of the primitive, the geometry and the
/// instance, each in the column of its own; the far end of the ray stands in the ninth
/// column of the rays. No other word of the packet changes.
pub proof fn lemma_committed_hits_stand_in_native_columns(
    words: Seq<u32>,
    n: nat,
    i: int,
    ray: Ray,
    hit: Hit,
    w: int,
)
    requires
        words.len() == 20 * n,
        0 <= i < n,
        0 <= w < words.len(),
    ensures
        ({
            let after = with_hit(
                with_tfar(words, n, i, ray.tfar),
                RAY_WORDS * n,
                n,
                i,
                hit.as_lane(),
            );
            &&& after.len() == words.len()
            &&& after[8 * n + i] == ray.tfar
            &&& after[12 * n + i] == hit.Ng_x
            &&& after[12 * n + n + i] == hit.Ng_y
            &&& after[12 * n + 2 * n + i] == hit.Ng_z
            &&& after[12 * n + 3 * n + i] == hit.u
            &&& after[12 * n + 4 * n + i] == hit.v
            &&& after[12 * n + 5 * n + i] == hit.primID
            &&& after[12 * n + 6 * n + i] == hit.geomID
            &&& after[12 * n + 7 * n + i] == hit.instID[0]
            &&& w != 8 * n + i && w != 12 * n + i && w != 13 * n + i && w != 14 * n + i && w
                != 15 * n + i && w != 16 * n + i && w != 17 * n + i && w != 18 * n + i && w != 19
                * n + i ==> after[w] == words[w]
        }),
{
    assert(RAY_WORDS * n == 12 * n);
}

/// A lane that is marked occluded ends at negative infinity, in the ninth column of the
/// rays; no other word of the packet changes.
pub proof fn lemma_occluded_rays_end_at_negative_infinity(
    words: Seq<u32>,
    n: nat,
    i: int,
    w: int,
)
    requires
        words.len() == 12 * n,
        0 <= i < n,
        0 <= w < words.len(),
    ensures
        with_tfar(words, n, i, REAL_NEG_INFINITY)[w] == (if w == 8 * n + i {
            0xff80_0000
        } else {
            words[w]
        }),
{
}

/// The packet of a user-geometry callback has 20 words for each lane of an intersect
/// callback, rays and hits, and 12 for each lane of an occluded one; a lane is read
/// from the native columns.
pub proof fn lemma_callback_packets_are_native<C: AsIntersectContext, D: UserData>(
    a: IntersectFunctionNArgs<'_, C, D>,
    b: OccludedFunctionNArgs<'_, C, D>,
    i: int,
)
    ensures
        a.wf() <==> old(a.rayhit)@.len() == 20 * a.n && old(a.valid_n.lanes)@.len() == a.n,
        b.wf() <==> old(b.rays)@.len() == 12 * b.n && old(b.valid_n.lanes)@.len() == b.n,
        a.wf() && 0 <= i < a.n ==> {
            let w = old(a.rayhit)@;
            &&& a.ray_at(i).org_x == w[i]
            &&& a.ray_at(i).org_y == w[a.n + i]
            &&& a.ray_at(i).org_z == w[2 * a.n + i]
            &&& a.ray_at(i).tnear == w[3 * a.n + i]
            &&& a.ray_at(i).dir_x == w[4 * a.n + i]
            &&& a.ray_at(i).dir_y == w[5 * a.n + i]
            &&& a.ray_at(i).dir_z == w[6 * a.n + i]
            &&& a.ray_at(i).time == w[7 * a.n + i]
            &&& a.ray_at(i).tfar == w[8 * a.n + i]
            &&& a.ray_at(i).mask == w[9 * a.n + i]
            &&& a.ray_at(i).id == w[10 * a.n + i]
            &&& a.ray_at(i).flags == w[11 * a.n + i]
            &&& a.hit_at(i).prim_id == w[17 * a.n + i]
            &&& a.hit_at(i).geom_id == w[18 * a.n + i]
        },
        b.wf() && 0 <= i < b.n ==> {
            let w = old(b.rays)@;
            &&& b.ray_at(i).org_x == w[i]
            &&& b.ray_at(i).org_y == w[b.n + i]
            &&& b.ray_at(i).org_z == w[2 * b.n + i]
            &&& b.ray_at(i).tnear == w[3 * b.n + i]
            &&& b.ray_at(i).dir_x == w[4 * b.n + i]
            &&& b.ray_at(i).dir_y == w[5 * b.n + i]
            &&& b.ray_at(i).dir_z == w[6 * b.n + i]
            &&& b.ray_at(i).time == w[7 * b.n + i]
            &&& b.ray_at(i).tfar == w[8 * b.n + i]
            &&& b.ray_at(i).mask == w[9 * b.n + i]
            &&& b.ray_at(i).id == w[10 * b.n + i]
            &&& b.ray_at(i).flags == w[11 * b.n + i]
        },
{
}

/// A hit is committed to the columns that the native library reads it from: the normal
/// and the coordinates first, then the IDs of the primitive, the geometry and the
/// instance; and with it the far end of its ray. Nothing else of the packet changes,
/// and nothing outside it.
pub proof fn lemma_hits_are_committed_to_native_columns<'a, C: AsIntersectContext, D: UserData>(
    a: &mut IntersectFunctionNArgs<'a, C, D>,
    i: usize,
    ray: &Ray,
    hit: &Hit,
    w: int,
)
    requires
        call_ensures(IntersectFunctionNArgs::<'a, C, D>::commit_hit, (a, i, ray, hit), ()),
        old(a).wf(),
        i < old(a).n,
        0 <= w < old(a).rayhit@.len(),
    ensures
        ({
            let n = old(a).n;
            let (before, after) = (old(a).rayhit@, final(a).rayhit@);
            &&& before.len() == 20 * n && after.len() == 20 * n
            &&& after[8 * n + i] == ray.tfar
            &&& after[12 * n + i] == hit.Ng_x
            &&& after[13 * n + i] == hit.Ng_y
            &&& after[14 * n + i] == hit.Ng_z
            &&& after[15 * n + i] == hit.u
            &&& after[16 * n + i] == hit.v
            &&& after[17 * n + i] == hit.primID
            &&& after[18 * n + i] == hit.geomID
            &&& after[19 * n + i] == hit.instID[0]
            &&& w != 8 * n + i && w != 12 * n + i && w != 13 * n + i && w != 14 * n + i && w
                != 15 * n + i && w != 16 * n + i && w != 17 * n + i && w != 18 * n + i && w != 19
                * n + i ==> after[w] == before[w]
        }),
        final(a).n == old(a).n,
        final(a).geom_id == old(a).geom_id,
        final(a).prim_id == old(a).prim_id,
        final(a).user_data == old(a).user_data,
        final(a).valid_n == old(a).valid_n,
{
    lemma_committed_hits_stand_in_native_columns(
        old(a).rayhit@,
        old(a).n as nat,
        i as int,
        *ray,
        *hit,
        w,
    );
}

/// The far end of a ray is set in the ninth column, to negative infinity if the ray is
/// occluded; no other word changes.
pub proof fn lemma_far_ends_are_set_in_the_ninth_column<'a, C: AsIntersectContext, D: UserData>(
    a: &mut IntersectFunctionNArgs<'a, C, D>,
    b: &mut OccludedFunctionNArgs<'a, C, D>,
    i: usize,
    tfar: Real,
    w: int,
)
    requires
        old(a).wf(),
        old(b).wf(),
        i < old(a).n,
        i < old(b).n,
    ensures
        call_ensures(IntersectFunctionNArgs::<'a, C, D>::set_tfar, (a, i, tfar), ()) ==> {
            &&& final(a).rayhit@.len() == old(a).rayhit@.len()
            &&& final(a).rayhit@[8 * old(a).n + i] == tfar
            &&& 0 <= w < 20 * old(a).n && w != 8 * old(a).n + i ==> final(a).rayhit@[w] == old(
                a,
            ).rayhit@[w]
        },
        call_ensures(OccludedFunctionNArgs::<'a, C, D>::set_tfar, (b, i, tfar), ()) ==> {
            &&& final(b).rays@.len() == old(b).rays@.len()
            &&& final(b).rays@[8 * old(b).n + i] == tfar
            &&& 0 <= w < 12 * old(b).n && w != 8 * old(b).n + i ==> final(b).rays@[w] == old(
                b,
            ).rays@[w]
        },
        call_ensures(OccludedFunctionNArgs::<'a, C, D>::set_occluded, (b, i), ()) ==> {
            &&& final(b).rays@.len() == old(b).rays@.len()
            &&& final(b).rays@[8 * old(b).n + i] == 0xff80_0000u32
            &&& 0 <= w < 12 * old(b).n && w != 8 * old(b).n + i ==> final(b).rays@[w] == old(
                b,
            ).rays@[w]
        },
{
}

/// A callback sees the rays of its packet as the native columns have them, and the IDs,
/// the width and the data it was called with.
pub proof fn lemma_callbacks_see_the_native_packet<'a, C: AsIntersectContext, D: UserData>(
    a: &IntersectFunctionNArgs<'a, C, D>,
    b: &OccludedFunctionNArgs<'a, C, D>,
    i: usize,
    ra: Ray,
    rb: Ray,
    x: u32,
    len: usize,
    data: Option<&D>,
)
    requires
        call_ensures(IntersectFunctionNArgs::<'a, C, D>::ray, (a, i), ra),
        call_ensures(OccludedFunctionNArgs::<'a, C, D>::ray, (b, i), rb),
        a.wf(),
        b.wf(),
        i < a.n,
        i < b.n,
    ensures
        ({
            let (n, w) = (a.n, old(a.rayhit)@);
            &&& ra.org_x == w[i as int]
            &&& ra.org_y == w[n + i]
            &&& ra.org_z == w[2 * n + i]
            &&& ra.tnear == w[3 * n + i]
            &&& ra.dir_x == w[4 * n + i]
            &&& ra.dir_y == w[5 * n + i]
            &&& ra.dir_z == w[6 * n + i]
            &&& ra.time == w[7 * n + i]
            &&& ra.tfar == w[8 * n + i]
            &&& ra.mask == w[9 * n + i]
            &&& ra.id == w[10 * n + i]
            &&& ra.flags == w[11 * n + i]
        }),
        ({
            let (n, w) = (b.n, old(b.rays)@);
            &&& rb.org_x == w[i as int]
            &&& rb.org_y == w[n + i]
            &&& rb.org_z == w[2 * n + i]
            &&& rb.tnear == w[3 * n + i]
            &&& rb.dir_x == w[4 * n + i]
            &&& rb.dir_y == w[5 * n + i]
            &&& rb.dir_z == w[6 * n + i]
            &&& rb.time == w[7 * n + i]
            &&& rb.tfar == w[8 * n + i]
            &&& rb.mask == w[9 * n + i]
            &&& rb.id == w[10 * n + i]
            &&& rb.flags == w[11 * n + i]
        }),
        call_ensures(IntersectFunctionNArgs::<'a, C, D>::geom_id, (a,), x) ==> x == a.geom_id,
        call_ensures(IntersectFunctionNArgs::<'a, C, D>::prim_id, (a,), x) ==> x == a.prim_id,
        call_ensures(IntersectFunctionNArgs::<'a, C, D>::len, (a,), len) ==> len == a.n,
        call_ensures(IntersectFunctionNArgs::<'a, C, D>::user_data, (a,), data) ==> data
            == a.user_data,
        call_ensures(OccludedFunctionNArgs::<'a, C, D>::geom_id, (b,), x) ==> x == b.geom_id,
        call_ensures(OccludedFunctionNArgs::<'a, C, D>::prim_id, (b,), x) ==> x == b.prim_id,
        call_ensures(OccludedFunctionNArgs::<'a, C, D>::len, (b,), len) ==> len == b.n,
        call_ensures(OccludedFunctionNArgs::<'a, C, D>::user_data, (b,), data) ==> data
            == b.user_data,
        a.query_context() == *old(a.context),
        b.query_context() == *old(b.context),
        a.hit_at(i as int).ng_x == old(a.rayhit)@[12 * a.n + i],
        a.hit_at(i as int).ng_y == old(a.rayhit)@[13 * a.n + i],
        a.hit_at(i as int).ng_z == old(a.rayhit)@[14 * a.n + i],
        a.hit_at(i as int).u == old(a.rayhit)@[15 * a.n + i],
        a.hit_at(i as int).v == old(a.rayhit)@[16 * a.n + i],
        a.hit_at(i as int).inst_id == old(a.rayhit)@[19 * a.n + i],
{
    lemma_callback_packets_are_native(*a, *b, i as int);
}

/// A filter is shown one active lane for a single candidate, which survives if its mask
/// is left set. For a packet it is shown the candidates of the active lanes in the
/// native columns of a packet of the same width, and zeros everywhere else.
pub proof fn lemma_filters_are_shown_the_candidates<'a, C: AsIntersectContext, D: UserData>(
    a: &IntersectFunctionNArgs<'a, C, D>,
    b: &OccludedFunctionNArgs<'a, C, D>,
    mask: i32,
    survives: bool,
    one: SingleFilter,
    hits: &[Hit],
    valid: &[i32],
    f: PacketFilter,
    j: int,
    w: int,
)
    requires
        hits@.len() == valid@.len(),
        hits@.len() <= 16,
        0 <= j < hits@.len(),
    ensures
        call_ensures(IntersectFunctionNArgs::<'a, C, D>::filter_request, (a,), one)
            || call_ensures(OccludedFunctionNArgs::<'a, C, D>::filter_request, (b,), one) ==> one.n
            == 1 && one.valid == -1,
        call_ensures(IntersectFunctionNArgs::<'a, C, D>::filter_intersection, (a, mask), survives)
            || call_ensures(
            OccludedFunctionNArgs::<'a, C, D>::filter_occlusion,
            (b, mask),
            survives,
        ) ==> (survives <==> mask != 0),
        (a.n == hits@.len() && call_ensures(
            IntersectFunctionNArgs::<'a, C, D>::filter_intersection_n,
            (a, hits, valid),
            f,
        )) || (b.n == hits@.len() && call_ensures(
            OccludedFunctionNArgs::<'a, C, D>::filter_occlusion_n,
            (b, hits, valid),
            f,
        )) ==> {
            let n = hits@.len() as int;
            let s = f.hits@;
            let shown = valid@[j] != 0;
            &&& f.n == n
            &&& s.len() == 128
            &&& s[j] == (if shown { hits@[j].Ng_x } else { 0 })
            &&& s[n + j] == (if shown { hits@[j].Ng_y } else { 0 })
            &&& s[2 * n + j] == (if shown { hits@[j].Ng_z } else { 0 })
            &&& s[3 * n + j] == (if shown { hits@[j].u } else { 0 })
            &&& s[4 * n + j] == (if shown { hits@[j].v } else { 0 })
            &&& s[5 * n + j] == (if shown { hits@[j].primID } else { 0 })
            &&& s[6 * n + j] == (if shown { hits@[j].geomID } else { 0 })
            &&& s[7 * n + j] == (if shown { hits@[j].instID[0] } else { 0 })
            &&& 8 * n <= w < 128 ==> s[w] == 0
        },
{
    lemma_candidates_are_staged_in_native_columns(hits@, valid@, hits@.len() as int, j);
    if 8 * hits@.len() <= w < 128 {
        lemma_words_behind_the_candidates_are_zero(hits@, valid@, hits@.len() as int, w);
    }
}

/// No candidate reaches behind the eight columns of its packet.
pub proof fn lemma_words_behind_the_candidates_are_zero(
    hits: Seq<Hit>,
    valid: Seq<i32>,
    upto: int,
    w: int,
)
    requires
        hits.len() == valid.len(),
        hits.len() <= 16,
        0 <= upto <= hits.len(),
        8 * hits.len() <= w < 128,
    ensures
        staged(hits, valid, upto)[w] == 0,
    decreases upto,
{
    if upto > 0 {
        lemma_staged_len(hits, valid, upto - 1);
        lemma_words_behind_the_candidates_are_zero(hits, valid, upto - 1, w);
    }
}

/// After the filter a surviving lane has what the filter left in its columns; the other
/// lanes keep their candidates.
pub proof fn lemma_survivors_are_taken_back<'a, C: AsIntersectContext, D: UserData>(
    a: &IntersectFunctionNArgs<'a, C, D>,
    b: &OccludedFunctionNArgs<'a, C, D>,
    scratch: &[u32; 128],
    valid: &[i32],
    hits: &mut [Hit],
    i: int,
)
    requires
        a.n == valid@.len(),
        b.n == valid@.len(),
        old(hits)@.len() == valid@.len(),
        valid@.len() <= 16,
        0 <= i < valid@.len(),
        call_ensures(
            IntersectFunctionNArgs::<'a, C, D>::finish_filter_intersection_n,
            (a, scratch, valid, hits),
            (),
        ) || call_ensures(
            OccludedFunctionNArgs::<'a, C, D>::finish_filter_occlusion_n,
            (b, scratch, valid, hits),
            (),
        ),
    ensures
        final(hits)@.len() == old(hits)@.len(),
        valid@[i] == 0 ==> final(hits)@[i] == old(hits)@[i],
        valid@[i] != 0 ==> {
            let n = valid@.len();
            let hit = final(hits)@[i];
            &&& hit.Ng_x == scratch@[i]
            &&& hit.Ng_y == scratch@[n + i]
            &&& hit.Ng_z == scratch@[2 * n + i]
            &&& hit.u == scratch@[3 * n + i]
            &&& hit.v == scratch@[4 * n + i]
            &&& hit.primID == scratch@[5 * n + i]
            &&& hit.geomID == scratch@[6 * n + i]
            &&& hit.instID[0] == scratch@[7 * n + i]
        },
{
    let hit = final(hits)@[i];
    assert(scratch@.len() == 128);
    if valid@[i] != 0 {
        lemma_candidates_are_taken_from_native_columns(scratch@, valid@.len(), i, hit);
    }
}

/// The active lanes of a mask are those that are not zero, in order, each once, and none
/// is missing; a mask that is set is read back.
pub proof fn lemma_masks_tell_the_active_lanes<'a>(
    v: &mut ValidityN<'a>,
    lanes: Vec<usize>,
    i: usize,
    m: i32,
    k: int,
    l: int,
)
    requires
        old(v)@.len() <= usize::MAX,
        i < old(v)@.len(),
    ensures
        call_ensures(ValidityN::<'a>::active_lanes, (old(v),), lanes) ==> {
            &&& 0 <= k < lanes@.len() ==> lanes@[k] < old(v)@.len()
            &&& 0 <= k < lanes@.len() ==> old(v)@[lanes@[k] as int] != 0
            &&& 0 <= k < l < lanes@.len() ==> lanes@[k] < lanes@[l]
            &&& old(v)@[i as int] != 0 ==> lanes@.contains(i)
        },
        call_ensures(ValidityN::<'a>::get_unchecked, (old(v), i), m) ==> m == old(
            v,
        ).lanes@[i as int],
        call_ensures(ValidityN::<'a>::set_unchecked, (v, i, m), ()) ==> {
            &&& final(v).lanes@.len() == old(v).lanes@.len()
            &&& final(v).lanes@[i as int] == m
            &&& 0 <= k < old(v).lanes@.len() && k != i ==> final(v).lanes@[k] == old(v).lanes@[k]
        },
{
    lemma_active_lanes_are_those_with_a_mask(old(v)@, old(v)@.len() as int);
}

/// A callback sees the context and the masks that it was called with.
pub proof fn lemma_callbacks_see_their_context<'a, C: AsIntersectContext, D: UserData>(
    a: &IntersectFunctionNArgs<'a, C, D>,
    b: &OccludedFunctionNArgs<'a, C, D>,
    c: &C,
    v: &ValidityN<'a>,
    empty: bool,
)
    ensures
        call_ensures(IntersectFunctionNArgs::<'a, C, D>::context, (a,), c) ==> *c == *old(
            a.context,
        ),
        call_ensures(OccludedFunctionNArgs::<'a, C, D>::context, (b,), c) ==> *c == *old(
            b.context,
        ),
        call_ensures(IntersectFunctionNArgs::<'a, C, D>::valid_n, (a,), v) ==> *v == a.valid_n,
        call_ensures(OccludedFunctionNArgs::<'a, C, D>::valid_n, (b,), v) ==> *v == b.valid_n,
        call_ensures(IntersectFunctionNArgs::<'a, C, D>::is_empty, (a,), empty) ==> (empty <==> a.n
            == 0),
        call_ensures(OccludedFunctionNArgs::<'a, C, D>::is_empty, (b,), empty) ==> (empty <==> b.n
            == 0),
{
}

/// The scratch block has the eight words of a hit for every lane of the widest packet,
/// which has 16.
pub proof fn lemma_scratch_holds_the_widest_packet()
    ensures
        MAX_PACKET_WIDTH == 16,
        SCRATCH_WORDS == 8 * MAX_PACKET_WIDTH,
{
}

} // verus!
