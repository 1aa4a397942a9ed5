//! Rays and hits: the single-ray structures and the lane-wise view of packets.

use vstd::prelude::*;

use crate::ray::packet::{no_hit, segment_ray};
use crate::sys::{Real, INVALID_ID, REAL_INFINITY, REAL_ZERO};

pub mod packet;

verus! {

/// A single ray. Real components are held by bit pattern.
#[derive(Debug, Clone, Copy, PartialEq, Eq, Structural)]
pub struct Ray {
    pub org_x: Real,
    pub org_y: Real,
    pub org_z: Real,
    pub tnear: Real,
    pub dir_x: Real,
    pub dir_y: Real,
    pub dir_z: Real,
    pub time: Real,
    pub tfar: Real,
    pub mask: u32,
    pub id: u32,
    pub flags: u32,
}

/// A single hit. Real components are held by bit pattern.
#[derive(Debug, Clone, Copy, PartialEq, Eq)]
#[allow(non_snake_case)]
pub struct Hit {
    pub Ng_x: Real,
    pub Ng_y: Real,
    pub Ng_z: Real,
    pub u: Real,
    pub v: Real,
    pub primID: u32,
    pub geomID: u32,
    pub instID: [u32; 1],
}

/// A single ray with the hit that belongs to it.
#[derive(Debug, Clone, Copy, PartialEq, Eq)]
pub struct RayHit {
    pub ray: Ray,
    pub hit: Hit,
}

/// What one lane of a hit packet holds.
#[derive(Debug, Clone, Copy, PartialEq, Eq, Structural)]
pub struct HitLane {
    pub ng_x: Real,
    pub ng_y: Real,
    pub ng_z: Real,
    pub u: Real,
    pub v: Real,
    pub prim_id: u32,
    pub geom_id: u32,
    pub inst_id: u32,
}

impl Ray {
    /// A ray from `origin` along `dir` without an upper distance limit.
    pub fn new(origin: [Real; 3], dir: [Real; 3]) -> (r: Ray)
        ensures
            r == segment_ray(origin, dir, REAL_ZERO, REAL_INFINITY),
    {
        Ray::segment(origin, dir, REAL_ZERO, REAL_INFINITY)
    }

    /// A ray segment between `tnear` and `tfar`.
    pub fn segment(origin: [Real; 3], dir: [Real; 3], tnear: Real, tfar: Real) -> (r: Ray)
        ensures
            r == segment_ray(origin, dir, tnear, tfar),
    {
        Ray {
            org_x: origin[0],
            org_y: origin[1],
            org_z: origin[2],
            tnear,
            dir_x: dir[0],
            dir_y: dir[1],
            dir_z: dir[2],
            time: REAL_ZERO,
            tfar,
            mask: u32::MAX,
            id: 0,
            flags: 0,
        }
    }
}

impl RayHit {
    /// A ray without a hit.
    pub fn new(ray: Ray) -> (r: RayHit)
        ensures
            r.ray == ray,
            r.hit.as_lane() == no_hit(),
    {
        RayHit { ray, hit: Hit::new() }
    }
}

impl Hit {
    /// No hit: every ID invalid.
    pub fn new() -> (h: Hit)
        ensures
            h.as_lane() == no_hit(),
    {
        Hit {
            Ng_x: REAL_ZERO,
            Ng_y: REAL_ZERO,
            Ng_z: REAL_ZERO,
            u: REAL_ZERO,
            v: REAL_ZERO,
            primID: INVALID_ID,
            geomID: INVALID_ID,
            instID: [INVALID_ID],
        }
    }

    /// Whether this is a hit: its geometry ID has been set.
    pub fn is_valid(&self) -> (r: bool)
        ensures
            r == self.as_lane().is_hit(),
    {
        self.geomID != INVALID_ID
    }

    /// The hit as the content of a packet lane.
    pub open spec fn as_lane(&self) -> HitLane {
        HitLane {
            ng_x: self.Ng_x,
            ng_y: self.Ng_y,
            ng_z: self.Ng_z,
            u: self.u,
            v: self.v,
            prim_id: self.primID,
            geom_id: self.geomID,
            inst_id: self.instID[0],
        }
    }
}

impl HitLane {
    /// A lane holds a hit when its geometry ID has been set.
    pub open spec fn is_hit(self) -> bool {
        self.geom_id != INVALID_ID
    }
}

/// Lane-wise access to a packet of rays in structure-of-arrays layout.
///
/// The packet is modelled by [`lane`](Self::lane): the ray held by each lane.
/// A setter changes the named components of its own lane and nothing else.
pub trait SoARay {
    /// Whether the packet's storage matches its width.
    spec fn wf(&self) -> bool;

    /// Number of lanes.
    spec fn lanes(&self) -> nat;

    /// The ray in lane `i`.
    spec fn lane(&self, i: int) -> Ray;

    /// Origin of the ray in lane `i`.
    fn org(&self, i: usize) -> (r: [Real; 3])
        requires
            self.wf(),
            i < self.lanes(),
        ensures
            r@ == seq![
                self.lane(i as int).org_x,
                self.lane(i as int).org_y,
                self.lane(i as int).org_z,
            ],
    ;

    /// Sets the origin of the ray in lane `i`.
    fn set_org(&mut self, i: usize, o: [Real; 3])
        requires
            old(self).wf(),
            i < old(self).lanes(),
        ensures
            final(self).wf(),
            final(self).lanes() == old(self).lanes(),
            final(self).lane(i as int) == (
                Ray { org_x: o[0], org_y: o[1], org_z: o[2], ..old(self).lane(i as int) }
            ),
            forall|j: int|
                0 <= j < old(self).lanes() && j != i
                    ==> #[trigger] final(self).lane(j) == old(self).lane(j),
    ;

    /// Direction of the ray in lane `i`.
    fn dir(&self, i: usize) -> (r: [Real; 3])
        requires
            self.wf(),
            i < self.lanes(),
        ensures
            r@ == seq![
                self.lane(i as int).dir_x,
                self.lane(i as int).dir_y,
                self.lane(i as int).dir_z,
            ],
    ;

    /// Sets the direction of the ray in lane `i`.
    fn set_dir(&mut self, i: usize, d: [Real; 3])
        requires
            old(self).wf(),
            i < old(self).lanes(),
        ensures
            final(self).wf(),
            final(self).lanes() == old(self).lanes(),
            final(self).lane(i as int) == (
                Ray { dir_x: d[0], dir_y: d[1], dir_z: d[2], ..old(self).lane(i as int) }
            ),
            forall|j: int|
                0 <= j < old(self).lanes() && j != i
                    ==> #[trigger] final(self).lane(j) == old(self).lane(j),
    ;

    /// Near end of the segment in lane `i`.
    fn tnear(&self, i: usize) -> (r: Real)
        requires
            self.wf(),
            i < self.lanes(),
        ensures
            r == self.lane(i as int).tnear,
    ;

    /// Sets the near end of the segment in lane `i`.
    fn set_tnear(&mut self, i: usize, t: Real)
        requires
            old(self).wf(),
            i < old(self).lanes(),
        ensures
            final(self).wf(),
            final(self).lanes() == old(self).lanes(),
            final(self).lane(i as int) == (Ray { tnear: t, ..old(self).lane(i as int) }),
            forall|j: int|
                0 <= j < old(self).lanes() && j != i
                    ==> #[trigger] final(self).lane(j) == old(self).lane(j),
    ;

    /// Far end of the segment in lane `i`.
    fn tfar(&self, i: usize) -> (r: Real)
        requires
            self.wf(),
            i < self.lanes(),
        ensures
            r == self.lane(i as int).tfar,
    ;

    /// Sets the far end of the segment in lane `i`.
    fn set_tfar(&mut self, i: usize, t: Real)
        requires
            old(self).wf(),
            i < old(self).lanes(),
        ensures
            final(self).wf(),
            final(self).lanes() == old(self).lanes(),
            final(self).lane(i as int) == (Ray { tfar: t, ..old(self).lane(i as int) }),
            forall|j: int|
                0 <= j < old(self).lanes() && j != i
                    ==> #[trigger] final(self).lane(j) == old(self).lane(j),
    ;

    /// Time of the ray in lane `i`.
    fn time(&self, i: usize) -> (r: Real)
        requires
            self.wf(),
            i < self.lanes(),
        ensures
            r == self.lane(i as int).time,
    ;

    /// Sets the time of the ray in lane `i`.
    fn set_time(&mut self, i: usize, t: Real)
        requires
            old(self).wf(),
            i < old(self).lanes(),
        ensures
            final(self).wf(),
            final(self).lanes() == old(self).lanes(),
            final(self).lane(i as int) == (Ray { time: t, ..old(self).lane(i as int) }),
            forall|j: int|
                0 <= j < old(self).lanes() && j != i
                    ==> #[trigger] final(self).lane(j) == old(self).lane(j),
    ;

    /// Mask of the ray in lane `i`.
    fn mask(&self, i: usize) -> (r: u32)
        requires
            self.wf(),
            i < self.lanes(),
        ensures
            r == self.lane(i as int).mask,
    ;

    /// Sets the mask of the ray in lane `i`.
    fn set_mask(&mut self, i: usize, m: u32)
        requires
            old(self).wf(),
            i < old(self).lanes(),
        ensures
            final(self).wf(),
            final(self).lanes() == old(self).lanes(),
            final(self).lane(i as int) == (Ray { mask: m, ..old(self).lane(i as int) }),
            forall|j: int|
                0 <= j < old(self).lanes() && j != i
                    ==> #[trigger] final(self).lane(j) == old(self).lane(j),
    ;

    /// ID of the ray in lane `i`.
    fn id(&self, i: usize) -> (r: u32)
        requires
            self.wf(),
            i < self.lanes(),
        ensures
            r == self.lane(i as int).id,
    ;

    /// Sets the iD of the ray in lane `i`.
    fn set_id(&mut self, i: usize, id: u32)
        requires
            old(self).wf(),
            i < old(self).lanes(),
        ensures
            final(self).wf(),
            final(self).lanes() == old(self).lanes(),
            final(self).lane(i as int) == (Ray { id: id, ..old(self).lane(i as int) }),
            forall|j: int|
                0 <= j < old(self).lanes() && j != i
                    ==> #[trigger] final(self).lane(j) == old(self).lane(j),
    ;

    /// Flags of the ray in lane `i`.
    fn flags(&self, i: usize) -> (r: u32)
        requires
            self.wf(),
            i < self.lanes(),
        ensures
            r == self.lane(i as int).flags,
    ;

    /// Sets the flags of the ray in lane `i`.
    fn set_flags(&mut self, i: usize, f: u32)
        requires
            old(self).wf(),
            i < old(self).lanes(),
        ensures
            final(self).wf(),
            final(self).lanes() == old(self).lanes(),
            final(self).lane(i as int) == (Ray { flags: f, ..old(self).lane(i as int) }),
            forall|j: int|
                0 <= j < old(self).lanes() && j != i
                    ==> #[trigger] final(self).lane(j) == old(self).lane(j),
    ;
}

/// Lane-wise access to a packet of hits in structure-of-arrays layout.
///
/// The packet is modelled by [`lane`](Self::lane): the hit held by each lane.
/// A setter changes the named components of its own lane and nothing else.
pub trait SoAHit {
    /// Whether the packet's storage matches its width.
    spec fn wf(&self) -> bool;

    /// Number of lanes.
    spec fn lanes(&self) -> nat;

    /// The hit in lane `i`.
    spec fn lane(&self, i: int) -> HitLane;

    /// Unnormalized geometry normal of the hit in lane `i`.
    fn normal(&self, i: usize) -> (r: [Real; 3])
        requires
            self.wf(),
            i < self.lanes(),
        ensures
            r@ == seq![
                self.lane(i as int).ng_x,
                self.lane(i as int).ng_y,
                self.lane(i as int).ng_z,
            ],
    ;

    /// Sets the geometry normal of the hit in lane `i`.
    fn set_normal(&mut self, i: usize, n: [Real; 3])
        requires
            old(self).wf(),
            i < old(self).lanes(),
        ensures
            final(self).wf(),
            final(self).lanes() == old(self).lanes(),
            final(self).lane(i as int) == (
                HitLane { ng_x: n[0], ng_y: n[1], ng_z: n[2], ..old(self).lane(i as int) }
            ),
            forall|j: int|
                0 <= j < old(self).lanes() && j != i
                    ==> #[trigger] final(self).lane(j) == old(self).lane(j),
    ;

    /// First barycentric coordinate of the hit in lane `i`.
    fn u(&self, i: usize) -> (r: Real)
        requires
            self.wf(),
            i < self.lanes(),
        ensures
            r == self.lane(i as int).u,
    ;

    /// Second barycentric coordinate of the hit in lane `i`.
    fn v(&self, i: usize) -> (r: Real)
        requires
            self.wf(),
            i < self.lanes(),
        ensures
            r == self.lane(i as int).v,
    ;

    /// Barycentric coordinates of the hit in lane `i`.
    fn uv(&self, i: usize) -> (r: [Real; 2])
        requires
            self.wf(),
            i < self.lanes(),
        ensures
            r@ == seq![self.lane(i as int).u, self.lane(i as int).v],
    ;

    /// Sets the first barycentric coordinate of the hit in lane `i`.
    fn set_u(&mut self, i: usize, u: Real)
        requires
            old(self).wf(),
            i < old(self).lanes(),
        ensures
            final(self).wf(),
            final(self).lanes() == old(self).lanes(),
            final(self).lane(i as int) == (HitLane { u: u, ..old(self).lane(i as int) }),
            forall|j: int|
                0 <= j < old(self).lanes() && j != i
                    ==> #[trigger] final(self).lane(j) == old(self).lane(j),
    ;

    /// Sets the second barycentric coordinate of the hit in lane `i`.
    fn set_v(&mut self, i: usize, v: Real)
        requires
            old(self).wf(),
            i < old(self).lanes(),
        ensures
            final(self).wf(),
            final(self).lanes() == old(self).lanes(),
            final(self).lane(i as int) == (HitLane { v: v, ..old(self).lane(i as int) }),
            forall|j: int|
                0 <= j < old(self).lanes() && j != i
                    ==> #[trigger] final(self).lane(j) == old(self).lane(j),
    ;

    /// Sets the barycentric coordinates of the hit in lane `i`.
    fn set_uv(&mut self, i: usize, uv: [Real; 2])
        requires
            old(self).wf(),
            i < old(self).lanes(),
        ensures
            final(self).wf(),
            final(self).lanes() == old(self).lanes(),
            final(self).lane(i as int) == (
                HitLane { u: uv[0], v: uv[1], ..old(self).lane(i as int) }
            ),
            forall|j: int|
                0 <= j < old(self).lanes() && j != i
                    ==> #[trigger] final(self).lane(j) == old(self).lane(j),
    ;

    /// Primitive ID of the hit in lane `i`.
    fn prim_id(&self, i: usize) -> (r: u32)
        requires
            self.wf(),
            i < self.lanes(),
        ensures
            r == self.lane(i as int).prim_id,
    ;

    /// Sets the primitive ID of the hit in lane `i`.
    fn set_prim_id(&mut self, i: usize, id: u32)
        requires
            old(self).wf(),
            i < old(self).lanes(),
        ensures
            final(self).wf(),
            final(self).lanes() == old(self).lanes(),
            final(self).lane(i as int) == (HitLane { prim_id: id, ..old(self).lane(i as int) }),
            forall|j: int|
                0 <= j < old(self).lanes() && j != i
                    ==> #[trigger] final(self).lane(j) == old(self).lane(j),
    ;

    /// Geometry ID of the hit in lane `i`.
    fn geom_id(&self, i: usize) -> (r: u32)
        requires
            self.wf(),
            i < self.lanes(),
        ensures
            r == self.lane(i as int).geom_id,
    ;

    /// Sets the geometry ID of the hit in lane `i`.
    fn set_geom_id(&mut self, i: usize, id: u32)
        requires
            old(self).wf(),
            i < old(self).lanes(),
        ensures
            final(self).wf(),
            final(self).lanes() == old(self).lanes(),
            final(self).lane(i as int) == (HitLane { geom_id: id, ..old(self).lane(i as int) }),
            forall|j: int|
                0 <= j < old(self).lanes() && j != i
                    ==> #[trigger] final(self).lane(j) == old(self).lane(j),
    ;

    /// Instance ID of the hit in lane `i`.
    fn inst_id(&self, i: usize) -> (r: u32)
        requires
            self.wf(),
            i < self.lanes(),
        ensures
            r == self.lane(i as int).inst_id,
    ;

    /// Sets the instance ID of the hit in lane `i`.
    fn set_inst_id(&mut self, i: usize, id: u32)
        requires
            old(self).wf(),
            i < old(self).lanes(),
        ensures
            final(self).wf(),
            final(self).lanes() == old(self).lanes(),
            final(self).lane(i as int) == (HitLane { inst_id: id, ..old(self).lane(i as int) }),
            forall|j: int|
                0 <= j < old(self).lanes() && j != i
                    ==> #[trigger] final(self).lane(j) == old(self).lane(j),
    ;

    /// Whether lane `i` holds a hit.
    fn is_valid(&self, i: usize) -> (r: bool)
        requires
            self.wf(),
            i < self.lanes(),
        ensures
            r == self.lane(i as int).is_hit(),
    {
        self.geom_id(i) != INVALID_ID
    }
}

/// One lane of a ray packet.
pub struct SoARayRef<'a, T: SoARay> {
    pub packet: &'a T,
    pub idx: usize,
}

/// One lane of a hit packet.
pub struct SoAHitRef<'a, T: SoAHit> {
    pub packet: &'a T,
    pub idx: usize,
}

/// One lane of a ray packet, for writing.
pub struct SoARayRefMut<'a, T: SoARay> {
    pub packet: &'a mut T,
    pub idx: usize,
}

/// Hands out the lanes of a ray packet for writing, in order.
pub struct SoARayIterMut<'a, T: SoARay> {
    pub packet: &'a mut T,
    pub cur: usize,
    pub len: usize,
}

/// Walks the lanes of a ray packet in order.
pub struct SoARayIter<'a, T: SoARay> {
    pub packet: &'a T,
    pub cur: usize,
    pub len: usize,
}

/// Walks the lanes of a hit packet in order.
pub struct SoAHitIter<'a, T: SoAHit> {
    pub packet: &'a T,
    pub cur: usize,
    pub len: usize,
}

impl<'a, T: SoAHit> SoAHitRef<'a, T> {
    /// The hit in this lane.
    pub open spec fn hit(&self) -> HitLane {
        self.packet.lane(self.idx as int)
    }

    /// Whether this lane holds a hit.
    pub fn is_valid(&self) -> (r: bool)
        requires
            self.packet.wf(),
            self.idx < self.packet.lanes(),
        ensures
            r == self.hit().is_hit(),
    {
        self.packet.is_valid(self.idx)
    }
}

impl<'a, T: SoARay> SoARayIter<'a, T> {
    /// Walks the first `len` lanes of `packet`.
    pub fn new(packet: &'a T, len: usize) -> (it: SoARayIter<'a, T>)
        ensures
            it.packet == packet,
            it.cur == 0,
            it.len == len,
    {
        SoARayIter { packet, cur: 0, len }
    }

    /// The next lane, or `None` once all have been handed out.
    pub fn next(&mut self) -> (r: Option<SoARayRef<'a, T>>)
        ensures
            final(self).packet == old(self).packet,
            final(self).len == old(self).len,
            match r {
                Some(lane) => {
                    &&& old(self).cur < old(self).len
                    &&& lane.packet == old(self).packet
                    &&& lane.idx == old(self).cur
                    &&& final(self).cur == old(self).cur + 1
                },
                None => old(self).cur >= old(self).len && final(self).cur == old(self).cur,
            },
    {
        if self.cur < self.len {
            let idx: usize = self.cur;
            self.cur = self.cur + 1;
            Some(SoARayRef { packet: self.packet, idx })
        } else {
            None
        }
    }
}

impl<'a, T: SoARay> SoARayIterMut<'a, T> {
    /// Hands out the first `len` lanes of `packet`.
    pub fn new(packet: &'a mut T, len: usize) -> (it: SoARayIterMut<'a, T>)
        ensures
            *it.packet == *old(packet),
            *final(it.packet) == *final(packet),
            it.cur == 0,
            it.len == len,
    {
        SoARayIterMut { packet, cur: 0, len }
    }

    /// The next lane, or `None` once all have been handed out. What is written
    /// through it is written to the packet.
    pub fn next(&mut self) -> (r: Option<SoARayRefMut<'_, T>>)
        ensures
            final(self).len == old(self).len,
            match r {
                Some(lane) => {
                    &&& old(self).cur < old(self).len
                    &&& *lane.packet == *old(self).packet
                    &&& *final(lane.packet) == *final(self).packet
                    &&& lane.idx == old(self).cur
                    &&& final(self).cur == old(self).cur + 1
                },
                None => {
                    &&& old(self).cur >= old(self).len
                    &&& *final(self).packet == *old(self).packet
                    &&& final(self).cur == old(self).cur
                },
            },
            *final(final(self).packet) == *final(old(self).packet),
    {
        if self.cur < self.len {
            let idx: usize = self.cur;
            self.cur = self.cur + 1;
            Some(SoARayRefMut { packet: &mut *self.packet, idx })
        } else {
            None
        }
    }
}

impl<'a, T: SoAHit> SoAHitIter<'a, T> {
    /// Walks the first `len` lanes of `packet`.
    pub fn new(packet: &'a T, len: usize) -> (it: SoAHitIter<'a, T>)
        ensures
            it.packet == packet,
            it.cur == 0,
            it.len == len,
    {
        SoAHitIter { packet, cur: 0, len }
    }

    /// The next lane, or `None` once all have been handed out.
    pub fn next(&mut self) -> (r: Option<SoAHitRef<'a, T>>)
        ensures
            final(self).packet == old(self).packet,
            final(self).len == old(self).len,
            match r {
                Some(lane) => {
                    &&& old(self).cur < old(self).len
                    &&& lane.packet == old(self).packet
                    &&& lane.idx == old(self).cur
                    &&& final(self).cur == old(self).cur + 1
                },
                None => old(self).cur >= old(self).len && final(self).cur == old(self).cur,
            },
    {
        if self.cur < self.len {
            let idx: usize = self.cur;
            self.cur = self.cur + 1;
            Some(SoAHitRef { packet: self.packet, idx })
        } else {
            None
        }
    }
}

/// A ray begins at the origin it was given, runs along the direction it was given,
/// each component in its own place, and between the ends it was given. It takes part
/// in every query, at the first moment.
pub proof fn lemma_rays_run_as_given(origin: [Real; 3], dir: [Real; 3], tnear: Real, tfar: Real)
    ensures
        ({
            let r = segment_ray(origin, dir, tnear, tfar);
            &&& seq![r.org_x, r.org_y, r.org_z] == origin@
            &&& seq![r.dir_x, r.dir_y, r.dir_z] == dir@
            &&& r.tnear == tnear
            &&& r.tfar == tfar
            &&& r.time == 0
            &&& r.mask == 0xffff_ffff
            &&& r.id == 0
            &&& r.flags == 0
        }),
{
    let r = segment_ray(origin, dir, tnear, tfar);
    assert(seq![r.org_x, r.org_y, r.org_z] =~= origin@);
    assert(seq![r.dir_x, r.dir_y, r.dir_z] =~= dir@);
}

/// A ray or a packet without limits begins at distance zero and ends at infinity; the
/// rays of an empty packet have neither origin nor direction.
pub proof fn lemma_unlimited_rays_reach_infinity(origin: [Real; 3], dir: [Real; 3])
    ensures
        segment_ray(origin, dir, REAL_ZERO, REAL_INFINITY).tnear == 0,
        segment_ray(origin, dir, REAL_ZERO, REAL_INFINITY).tfar == 0x7f80_0000,
        ({
            let r = crate::ray::packet::empty_ray();
            &&& r.org_x == 0 && r.org_y == 0 && r.org_z == 0
            &&& r.dir_x == 0 && r.dir_y == 0 && r.dir_z == 0
            &&& r.tnear == 0 && r.tfar == 0x7f80_0000
            &&& r.time == 0 && r.mask == 0xffff_ffff && r.id == 0 && r.flags == 0
        }),
{
}

/// A hit keeps each of its components, and is one exactly if its geometry ID was set.
/// No hit names no primitive, no geometry and no instance.
pub proof fn lemma_hits_keep_their_components(h: Hit)
    ensures
        h.as_lane().ng_x == h.Ng_x,
        h.as_lane().ng_y == h.Ng_y,
        h.as_lane().ng_z == h.Ng_z,
        h.as_lane().u == h.u,
        h.as_lane().v == h.v,
        h.as_lane().prim_id == h.primID,
        h.as_lane().geom_id == h.geomID,
        h.as_lane().inst_id == h.instID[0],
        h.as_lane().is_hit() <==> h.geomID != 0xffff_ffff,
        ({
            let none = no_hit();
            &&& none.prim_id == 0xffff_ffff && none.geom_id == 0xffff_ffff && none.inst_id
                == 0xffff_ffff
            &&& none.ng_x == 0 && none.ng_y == 0 && none.ng_z == 0 && none.u == 0 && none.v == 0
        }),
{
}

/// A ray that is made runs from its origin along its direction, between its ends or else
/// from zero to infinity, at time zero, seen by every geometry and with no number and no
/// flags.
pub proof fn lemma_rays_are_made_as_given(
    origin: [Real; 3],
    dir: [Real; 3],
    tnear: Real,
    tfar: Real,
    between: Ray,
    unlimited: Ray,
)
    requires
        call_ensures(Ray::segment, (origin, dir, tnear, tfar), between),
        call_ensures(Ray::new, (origin, dir), unlimited),
    ensures
        between.org_x == origin[0] && between.org_y == origin[1] && between.org_z == origin[2],
        between.dir_x == dir[0] && between.dir_y == dir[1] && between.dir_z == dir[2],
        between.tnear == tnear && between.tfar == tfar,
        between.time == 0 && between.mask == 0xffff_ffffu32,
        between.id == 0 && between.flags == 0,
        unlimited.org_x == origin[0] && unlimited.org_y == origin[1],
        unlimited.org_z == origin[2],
        unlimited.dir_x == dir[0] && unlimited.dir_y == dir[1] && unlimited.dir_z == dir[2],
        unlimited.tnear == 0 && unlimited.tfar == 0x7f80_0000u32,
        unlimited.time == 0 && unlimited.mask == 0xffff_ffffu32,
        unlimited.id == 0 && unlimited.flags == 0,
{
}

/// A hit that is made names no geometry, no primitive and no instance; a hit counts
/// exactly if it names a geometry. A ray that is paired with a hit stays as it is.
pub proof fn lemma_new_hits_name_nothing(
    made: Hit,
    hit: &Hit,
    valid: bool,
    ray: Ray,
    pair: RayHit,
)
    requires
        call_ensures(Hit::new, (), made),
        call_ensures(Hit::is_valid, (hit,), valid),
        call_ensures(RayHit::new, (ray,), pair),
    ensures
        made.geomID == 0xffff_ffffu32 && made.primID == 0xffff_ffffu32,
        made.instID[0] == 0xffff_ffffu32,
        made.Ng_x == 0 && made.Ng_y == 0 && made.Ng_z == 0,
        made.u == 0 && made.v == 0,
        valid <==> hit.geomID != 0xffff_ffffu32,
        pair.ray == ray,
        pair.hit.geomID == 0xffff_ffffu32 && pair.hit.primID == 0xffff_ffffu32,
{
}

/// A lane that is held by reference is the lane of its packet, and counts as a hit
/// exactly if that lane names a geometry.
pub proof fn lemma_references_are_to_their_lane<'a, T: SoAHit>(
    h: &SoAHitRef<'a, T>,
    valid: bool,
)
    requires
        call_ensures(SoAHitRef::<'a, T>::is_valid, (h,), valid),
    ensures
        h.hit() == h.packet.lane(h.idx as int),
        valid <==> h.packet.lane(h.idx as int).geom_id != 0xffff_ffffu32,
{
}

/// The lanes of a packet are walked from the first to the last, one at a time.
pub proof fn lemma_lanes_are_walked_in_order<'a, R: SoARay, H: SoAHit>(
    rays: &mut SoARayIter<'a, R>,
    hits: &mut SoAHitIter<'a, H>,
    packet: &'a R,
    len: usize,
    fresh: SoARayIter<'a, R>,
    ray: Option<SoARayRef<'a, R>>,
    hit: Option<SoAHitRef<'a, H>>,
)
    ensures
        call_ensures(SoARayIter::<'a, R>::new, (packet, len), fresh) ==> fresh.cur == 0
            && fresh.len == len && fresh.packet == packet,
        call_ensures(SoARayIter::<'a, R>::next, (rays,), ray) ==> {
            &&& ray is Some <==> old(rays).cur < old(rays).len
            &&& ray matches Some(r) ==> r.idx == old(rays).cur && r.packet == old(rays).packet
            &&& ray is Some ==> final(rays).cur == old(rays).cur + 1
            &&& ray is None ==> final(rays).cur == old(rays).cur
            &&& final(rays).packet == old(rays).packet && final(rays).len == old(rays).len
        },
        call_ensures(SoAHitIter::<'a, H>::next, (hits,), hit) ==> {
            &&& hit is Some <==> old(hits).cur < old(hits).len
            &&& hit matches Some(h) ==> h.idx == old(hits).cur && h.packet == old(hits).packet
            &&& hit is Some ==> final(hits).cur == old(hits).cur + 1
            &&& hit is None ==> final(hits).cur == old(hits).cur
            &&& final(hits).packet == old(hits).packet && final(hits).len == old(hits).len
        },
{
}

} // verus!
