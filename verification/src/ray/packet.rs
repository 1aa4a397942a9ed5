//! Ray packets: fixed-width packets and views of packets of runtime width.

use vstd::prelude::*;

use crate::ray::{
    Hit, HitLane, Ray, RayHit, SoAHit, SoAHitIter, SoAHitRef, SoARay, SoARayIter, SoARayIterMut,
    SoARayRef,
};
use crate::sys::{Real, INVALID_ID, REAL_INFINITY, REAL_ZERO};

verus! {

/// Represents a packet of rays.
pub trait RayPacket: Sized {
    /// Number of rays in the packet.
    const LEN: usize;
}

/// Represents a packet of hits.
pub trait HitPacket: Sized {
    /// Number of hits in the packet.
    const LEN: usize;
}

/// Represents a packet of ray/hit pairs.
pub trait RayHitPacket: Sized {
    type Ray: RayPacket;

    type Hit: HitPacket;

    /// Number of ray/hit pairs in the packet.
    const LEN: usize;
}

/// A ray packet of width `N` in structure-of-arrays layout.
#[derive(Debug, Clone, Copy)]
pub struct RaySoA<const N: usize> {
    pub org_x: [Real; N],
    pub org_y: [Real; N],
    pub org_z: [Real; N],
    pub tnear: [Real; N],
    pub dir_x: [Real; N],
    pub dir_y: [Real; N],
    pub dir_z: [Real; N],
    pub time: [Real; N],
    pub tfar: [Real; N],
    pub mask: [u32; N],
    pub id: [u32; N],
    pub flags: [u32; N],
}

/// A hit packet of width `N` in structure-of-arrays layout.
#[derive(Debug, Clone, Copy)]
#[allow(non_snake_case)]
pub struct HitSoA<const N: usize> {
    pub Ng_x: [Real; N],
    pub Ng_y: [Real; N],
    pub Ng_z: [Real; N],
    pub u: [Real; N],
    pub v: [Real; N],
    pub primID: [u32; N],
    pub geomID: [u32; N],
    pub instID: [[u32; N]; 1],
}

/// A ray packet of size 4.
pub type Ray4 = RaySoA<4>;

/// A hit packet of size 4.
pub type Hit4 = HitSoA<4>;

/// A ray/hit packet of size 4.
#[derive(Debug, Clone, Copy)]
pub struct RayHit4 {
    pub ray: Ray4,
    pub hit: Hit4,
}

/// A ray packet of size 8.
pub type Ray8 = RaySoA<8>;

/// A hit packet of size 8.
pub type Hit8 = HitSoA<8>;

/// A ray/hit packet of size 8.
#[derive(Debug, Clone, Copy)]
pub struct RayHit8 {
    pub ray: Ray8,
    pub hit: Hit8,
}

/// A ray packet of size 16.
pub type Ray16 = RaySoA<16>;

/// A hit packet of size 16.
pub type Hit16 = HitSoA<16>;

/// A ray/hit packet of size 16.
#[derive(Debug, Clone, Copy)]
pub struct RayHit16 {
    pub ray: Ray16,
    pub hit: Hit16,
}

impl RayPacket for Ray {
    const LEN: usize = 1;
}

impl HitPacket for Hit {
    const LEN: usize = 1;
}

impl RayHitPacket for RayHit {
    type Ray = Ray;

    type Hit = Hit;

    const LEN: usize = 1;
}

impl RayPacket for Ray4 {
    const LEN: usize = 4;
}

impl HitPacket for Hit4 {
    const LEN: usize = 4;
}

impl RayHitPacket for RayHit4 {
    type Ray = Ray4;

    type Hit = Hit4;

    const LEN: usize = 4;
}

impl RayPacket for Ray8 {
    const LEN: usize = 8;
}

impl HitPacket for Hit8 {
    const LEN: usize = 8;
}

impl RayHitPacket for RayHit8 {
    type Ray = Ray8;

    type Hit = Hit8;

    const LEN: usize = 8;
}

impl RayPacket for Ray16 {
    const LEN: usize = 16;
}

impl HitPacket for Hit16 {
    const LEN: usize = 16;
}

impl RayHitPacket for RayHit16 {
    type Ray = Ray16;

    type Hit = Hit16;

    const LEN: usize = 16;
}

impl<const N: usize> RaySoA<N> {
    /// Rays from `origin` along `dir` without an upper distance limit.
    pub fn new(origin: [[Real; 3]; N], dir: [[Real; 3]; N]) -> (r: RaySoA<N>)
        ensures
            forall|i: int| 0 <= i < N ==> #[trigger] r.lane(i) == segment_ray(
                origin[i],
                dir[i],
                REAL_ZERO,
                REAL_INFINITY,
            ),
    {
        RaySoA::segment(origin, dir, [REAL_ZERO; N], [REAL_INFINITY; N])
    }

    /// Ray segments between `tnear` and `tfar`.
    pub fn segment(
        origin: [[Real; 3]; N],
        dir: [[Real; 3]; N],
        tnear: [Real; N],
        tfar: [Real; N],
    ) -> (r: RaySoA<N>)
        ensures
            forall|i: int| 0 <= i < N ==> #[trigger] r.lane(i) == segment_ray(
                origin[i],
                dir[i],
                tnear[i],
                tfar[i],
            ),
    {
        let mut r = RaySoA {
            org_x: [REAL_ZERO; N],
            org_y: [REAL_ZERO; N],
            org_z: [REAL_ZERO; N],
            tnear,
            dir_x: [REAL_ZERO; N],
            dir_y: [REAL_ZERO; N],
            dir_z: [REAL_ZERO; N],
            time: [REAL_ZERO; N],
            tfar,
            mask: [u32::MAX; N],
            id: [0u32; N],
            flags: [0u32; N],
        };
        let mut i: usize = 0;
        while i < N
            invariant
                i <= N,
                r.tnear == tnear,
                r.tfar == tfar,
                forall|j: int|
                    0 <= j < N ==> r.time[j] == REAL_ZERO && r.mask[j] == u32::MAX && r.id[j] == 0
                        && r.flags[j] == 0,
                forall|j: int| 0 <= j < i ==> #[trigger] r.lane(j) == segment_ray(
                    origin[j],
                    dir[j],
                    tnear[j],
                    tfar[j],
                ),
            decreases N - i,
        {
            let ghost before = r;
            r.org_x[i] = origin[i][0];
            r.org_y[i] = origin[i][1];
            r.org_z[i] = origin[i][2];
            r.dir_x[i] = dir[i][0];
            r.dir_y[i] = dir[i][1];
            r.dir_z[i] = dir[i][2];
            proof {
                assert forall|j: int| 0 <= j < i implies #[trigger] r.lane(j) == before.lane(
                    j,
                ) by {}
            }
            i += 1;
        }
        r
    }

    /// A packet of rays of zero origin and direction.
    pub fn empty() -> (r: RaySoA<N>)
        ensures
            forall|i: int| 0 <= i < N ==> #[trigger] r.lane(i) == empty_ray(),
    {
        RaySoA::segment(
            [[REAL_ZERO, REAL_ZERO, REAL_ZERO]; N],
            [[REAL_ZERO, REAL_ZERO, REAL_ZERO]; N],
            [REAL_ZERO; N],
            [REAL_INFINITY; N],
        )
    }
}

impl<const N: usize> Default for RaySoA<N> {
    fn default() -> (r: Self)
        ensures
            forall|i: int| 0 <= i < N ==> #[trigger] r.lane(i) == empty_ray(),
    {
        Self::empty()
    }
}

/// The ray that a packet constructor puts into a lane.
pub open spec fn segment_ray(origin: [Real; 3], dir: [Real; 3], tnear: Real, tfar: Real) -> Ray {
    Ray {
        org_x: origin[0],
        org_y: origin[1],
        org_z: origin[2],
        tnear,
        dir_x: dir[0],
        dir_y: dir[1],
        dir_z: dir[2],
        time: REAL_ZERO,
        tfar,
        mask: u32::MAX,
        id: 0,
        flags: 0,
    }
}

/// The ray in every lane of an empty packet.
pub open spec fn empty_ray() -> Ray {
    Ray {
        org_x: REAL_ZERO,
        org_y: REAL_ZERO,
        org_z: REAL_ZERO,
        tnear: REAL_ZERO,
        dir_x: REAL_ZERO,
        dir_y: REAL_ZERO,
        dir_z: REAL_ZERO,
        time: REAL_ZERO,
        tfar: REAL_INFINITY,
        mask: u32::MAX,
        id: 0,
        flags: 0,
    }
}

impl<const N: usize> SoARay for RaySoA<N> {
    open spec fn wf(&self) -> bool {
        true
    }

    open spec fn lanes(&self) -> nat {
        N as nat
    }

    open spec fn lane(&self, i: int) -> Ray {
        Ray {
            org_x: self.org_x[i],
            org_y: self.org_y[i],
            org_z: self.org_z[i],
            tnear: self.tnear[i],
            dir_x: self.dir_x[i],
            dir_y: self.dir_y[i],
            dir_z: self.dir_z[i],
            time: self.time[i],
            tfar: self.tfar[i],
            mask: self.mask[i],
            id: self.id[i],
            flags: self.flags[i],
        }
    }

    fn org(&self, i: usize) -> (r: [Real; 3]) {
        [self.org_x[i], self.org_y[i], self.org_z[i]]
    }

    fn set_org(&mut self, i: usize, o: [Real; 3]) {
        self.org_x[i] = o[0];
        self.org_y[i] = o[1];
        self.org_z[i] = o[2];
    }

    fn dir(&self, i: usize) -> (r: [Real; 3]) {
        [self.dir_x[i], self.dir_y[i], self.dir_z[i]]
    }

    fn set_dir(&mut self, i: usize, d: [Real; 3]) {
        self.dir_x[i] = d[0];
        self.dir_y[i] = d[1];
        self.dir_z[i] = d[2];
    }

    fn tnear(&self, i: usize) -> (r: Real) {
        self.tnear[i]
    }

    fn set_tnear(&mut self, i: usize, t: Real) {
        self.tnear[i] = t;
    }

    fn tfar(&self, i: usize) -> (r: Real) {
        self.tfar[i]
    }

    fn set_tfar(&mut self, i: usize, t: Real) {
        self.tfar[i] = t;
    }

    fn time(&self, i: usize) -> (r: Real) {
        self.time[i]
    }

    fn set_time(&mut self, i: usize, t: Real) {
        self.time[i] = t;
    }

    fn mask(&self, i: usize) -> (r: u32) {
        self.mask[i]
    }

    fn set_mask(&mut self, i: usize, m: u32) {
        self.mask[i] = m;
    }

    fn id(&self, i: usize) -> (r: u32) {
        self.id[i]
    }

    fn set_id(&mut self, i: usize, id: u32) {
        self.id[i] = id;
    }

    fn flags(&self, i: usize) -> (r: u32) {
        self.flags[i]
    }

    fn set_flags(&mut self, i: usize, f: u32) {
        self.flags[i] = f;
    }
}

impl<const N: usize> SoAHit for HitSoA<N> {
    open spec fn wf(&self) -> bool {
        true
    }

    open spec fn lanes(&self) -> nat {
        N as nat
    }

    open spec fn lane(&self, i: int) -> HitLane {
        HitLane {
            ng_x: self.Ng_x[i],
            ng_y: self.Ng_y[i],
            ng_z: self.Ng_z[i],
            u: self.u[i],
            v: self.v[i],
            prim_id: self.primID[i],
            geom_id: self.geomID[i],
            inst_id: self.instID[0][i],
        }
    }

    fn normal(&self, i: usize) -> (r: [Real; 3]) {
        [self.Ng_x[i], self.Ng_y[i], self.Ng_z[i]]
    }

    fn set_normal(&mut self, i: usize, n: [Real; 3]) {
        self.Ng_x[i] = n[0];
        self.Ng_y[i] = n[1];
        self.Ng_z[i] = n[2];
    }

    fn u(&self, i: usize) -> (r: Real) {
        self.u[i]
    }

    fn v(&self, i: usize) -> (r: Real) {
        self.v[i]
    }

    fn uv(&self, i: usize) -> (r: [Real; 2]) {
        [self.u[i], self.v[i]]
    }

    fn set_u(&mut self, i: usize, u: Real) {
        self.u[i] = u;
    }

    fn set_v(&mut self, i: usize, v: Real) {
        self.v[i] = v;
    }

    fn set_uv(&mut self, i: usize, uv: [Real; 2]) {
        self.u[i] = uv[0];
        self.v[i] = uv[1];
    }

    fn prim_id(&self, i: usize) -> (r: u32) {
        self.primID[i]
    }

    fn set_prim_id(&mut self, i: usize, id: u32) {
        self.primID[i] = id;
    }

    fn geom_id(&self, i: usize) -> (r: u32) {
        self.geomID[i]
    }

    fn set_geom_id(&mut self, i: usize, id: u32) {
        self.geomID[i] = id;
    }

    fn inst_id(&self, i: usize) -> (r: u32) {
        self.instID[0][i]
    }

    fn set_inst_id(&mut self, i: usize, id: u32) {
        self.instID[0][i] = id;
    }
}

/// The lane content of a packet without any hit.
pub open spec fn no_hit() -> HitLane {
    HitLane {
        ng_x: REAL_ZERO,
        ng_y: REAL_ZERO,
        ng_z: REAL_ZERO,
        u: REAL_ZERO,
        v: REAL_ZERO,
        prim_id: INVALID_ID,
        geom_id: INVALID_ID,
        inst_id: INVALID_ID,
    }
}

impl<const N: usize> HitSoA<N> {
    /// A packet whose lanes hold no hit.
    pub fn new() -> (h: HitSoA<N>)
        ensures
            forall|i: int| 0 <= i < N ==> #[trigger] h.lane(i) == no_hit(),
    {
        HitSoA {
            Ng_x: [REAL_ZERO; N],
            Ng_y: [REAL_ZERO; N],
            Ng_z: [REAL_ZERO; N],
            u: [REAL_ZERO; N],
            v: [REAL_ZERO; N],
            primID: [INVALID_ID; N],
            geomID: [INVALID_ID; N],
            instID: [[INVALID_ID; N]],
        }
    }

    /// Whether any lane holds a hit.
    pub fn any_hit(&self) -> (r: bool)
        ensures
            r == exists|i: int| 0 <= i < N && (#[trigger] self.lane(i)).is_hit(),
    {
        let mut i: usize = 0;
        while i < N
            invariant
                i <= N,
                forall|j: int| 0 <= j < i ==> !(#[trigger] self.lane(j)).is_hit(),
            decreases N - i,
        {
            if self.geomID[i] != INVALID_ID {
                assert(self.lane(i as int).is_hit());
                return true;
            }
            i += 1;
        }
        false
    }

    /// For each lane, whether it holds a hit.
    pub fn iter_validity(&self) -> (v: Vec<bool>)
        ensures
            v@ == Seq::new(N as nat, |i: int| self.lane(i).is_hit()),
    {
        let mut v: Vec<bool> = Vec::new();
        let mut i: usize = 0;
        while i < N
            invariant
                i <= N,
                v@ == Seq::new(i as nat, |j: int| self.lane(j).is_hit()),
            decreases N - i,
        {
            v.push(self.geomID[i] != INVALID_ID);
            i += 1;
        }
        v
    }
}

impl<const N: usize> Default for HitSoA<N> {
    fn default() -> (h: Self)
        ensures
            forall|i: int| 0 <= i < N ==> #[trigger] h.lane(i) == no_hit(),
    {
        Self::new()
    }
}

/// Number of 32-bit words that one ray takes in a packet.
pub const RAY_WORDS: usize = 12;

/// Number of 32-bit words that one hit takes in a packet.
pub const HIT_WORDS: usize = 8;

/// Ray packet of runtime size.
///
/// A view of `len` rays in structure-of-arrays layout: column `c` of the packet
/// occupies the words from `c * len` to `(c + 1) * len`. It is handed to
/// callbacks, where the width is 1, 4, 8 or 16.
pub struct RayN<'a> {
    pub words: &'a mut [u32],
    pub len: usize,
}

/// Hit packet of runtime size, in the same layout as [`RayN`].
pub struct HitN<'a> {
    pub words: &'a mut [u32],
    pub len: usize,
}

/// Combined ray and hit packet of runtime size: the ray columns, then the hit
/// columns.
pub struct RayHitN<'a> {
    pub words: &'a mut [u32],
    pub len: usize,
}

/// The ray in lane `i` of a packet of `n` rays stored in `words`.
pub open spec fn ray_lane(words: Seq<u32>, n: nat, i: int) -> Ray {
    Ray {
        org_x: words[i],
        org_y: words[n + i],
        org_z: words[2 * n + i],
        tnear: words[3 * n + i],
        dir_x: words[4 * n + i],
        dir_y: words[5 * n + i],
        dir_z: words[6 * n + i],
        time: words[7 * n + i],
        tfar: words[8 * n + i],
        mask: words[9 * n + i],
        id: words[10 * n + i],
        flags: words[11 * n + i],
    }
}

/// The hit in lane `i` of a packet of `n` hits stored in `words`.
pub open spec fn hit_lane(words: Seq<u32>, n: nat, i: int) -> HitLane {
    HitLane {
        ng_x: words[i],
        ng_y: words[n + i],
        ng_z: words[2 * n + i],
        u: words[3 * n + i],
        v: words[4 * n + i],
        prim_id: words[5 * n + i],
        geom_id: words[6 * n + i],
        inst_id: words[7 * n + i],
    }
}

impl<'a> SoARay for RayN<'a> {
    open spec fn wf(&self) -> bool {
        self.words.len() == RAY_WORDS * self.len
    }

    open spec fn lanes(&self) -> nat {
        self.len as nat
    }

    open spec fn lane(&self, i: int) -> Ray {
        ray_lane(self.words@, self.len as nat, i)
    }

    fn org(&self, i: usize) -> (r: [Real; 3]) {
        [self.words[i], self.words[self.len + i], self.words[2 * self.len + i]]
    }

    fn set_org(&mut self, i: usize, o: [Real; 3])
        ensures
            final(final(self).words)@ == final(old(self).words)@,
    {
        self.words[i] = o[0];
        self.words[self.len + i] = o[1];
        self.words[2 * self.len + i] = o[2];
    }

    fn dir(&self, i: usize) -> (r: [Real; 3]) {
        [self.words[4 * self.len + i], self.words[5 * self.len + i], self.words[6 * self.len + i]]
    }

    fn set_dir(&mut self, i: usize, d: [Real; 3])
        ensures
            final(final(self).words)@ == final(old(self).words)@,
    {
        self.words[4 * self.len + i] = d[0];
        self.words[5 * self.len + i] = d[1];
        self.words[6 * self.len + i] = d[2];
    }

    fn tnear(&self, i: usize) -> (r: Real) {
        self.words[3 * self.len + i]
    }

    fn set_tnear(&mut self, i: usize, t: Real)
        ensures
            final(final(self).words)@ == final(old(self).words)@,
    {
        self.words[3 * self.len + i] = t;
    }

    fn tfar(&self, i: usize) -> (r: Real) {
        self.words[8 * self.len + i]
    }

    fn set_tfar(&mut self, i: usize, t: Real)
        ensures
            final(final(self).words)@ == final(old(self).words)@,
    {
        self.words[8 * self.len + i] = t;
    }

    fn time(&self, i: usize) -> (r: Real) {
        self.words[7 * self.len + i]
    }

    fn set_time(&mut self, i: usize, t: Real)
        ensures
            final(final(self).words)@ == final(old(self).words)@,
    {
        self.words[7 * self.len + i] = t;
    }

    fn mask(&self, i: usize) -> (r: u32) {
        self.words[9 * self.len + i]
    }

    fn set_mask(&mut self, i: usize, m: u32)
        ensures
            final(final(self).words)@ == final(old(self).words)@,
    {
        self.words[9 * self.len + i] = m;
    }

    fn id(&self, i: usize) -> (r: u32) {
        self.words[10 * self.len + i]
    }

    fn set_id(&mut self, i: usize, id: u32)
        ensures
            final(final(self).words)@ == final(old(self).words)@,
    {
        self.words[10 * self.len + i] = id;
    }

    fn flags(&self, i: usize) -> (r: u32) {
        self.words[11 * self.len + i]
    }

    fn set_flags(&mut self, i: usize, f: u32)
        ensures
            final(final(self).words)@ == final(old(self).words)@,
    {
        self.words[11 * self.len + i] = f;
    }
}

impl<'a> SoAHit for HitN<'a> {
    open spec fn wf(&self) -> bool {
        self.words.len() == HIT_WORDS * self.len
    }

    open spec fn lanes(&self) -> nat {
        self.len as nat
    }

    open spec fn lane(&self, i: int) -> HitLane {
        hit_lane(self.words@, self.len as nat, i)
    }

    fn normal(&self, i: usize) -> (r: [Real; 3]) {
        [self.words[i], self.words[self.len + i], self.words[2 * self.len + i]]
    }

    fn set_normal(&mut self, i: usize, n: [Real; 3])
        ensures
            final(final(self).words)@ == final(old(self).words)@,
    {
        self.words[i] = n[0];
        self.words[self.len + i] = n[1];
        self.words[2 * self.len + i] = n[2];
    }

    fn u(&self, i: usize) -> (r: Real) {
        self.words[3 * self.len + i]
    }

    fn v(&self, i: usize) -> (r: Real) {
        self.words[4 * self.len + i]
    }

    fn uv(&self, i: usize) -> (r: [Real; 2]) {
        [self.words[3 * self.len + i], self.words[4 * self.len + i]]
    }

    fn set_u(&mut self, i: usize, u: Real)
        ensures
            final(final(self).words)@ == final(old(self).words)@,
    {
        self.words[3 * self.len + i] = u;
    }

    fn set_v(&mut self, i: usize, v: Real)
        ensures
            final(final(self).words)@ == final(old(self).words)@,
    {
        self.words[4 * self.len + i] = v;
    }

    fn set_uv(&mut self, i: usize, uv: [Real; 2])
        ensures
            final(final(self).words)@ == final(old(self).words)@,
    {
        self.words[3 * self.len + i] = uv[0];
        self.words[4 * self.len + i] = uv[1];
    }

    fn prim_id(&self, i: usize) -> (r: u32) {
        self.words[5 * self.len + i]
    }

    fn set_prim_id(&mut self, i: usize, id: u32)
        ensures
            final(final(self).words)@ == final(old(self).words)@,
    {
        self.words[5 * self.len + i] = id;
    }

    fn geom_id(&self, i: usize) -> (r: u32) {
        self.words[6 * self.len + i]
    }

    fn set_geom_id(&mut self, i: usize, id: u32)
        ensures
            final(final(self).words)@ == final(old(self).words)@,
    {
        self.words[6 * self.len + i] = id;
    }

    fn inst_id(&self, i: usize) -> (r: u32) {
        self.words[7 * self.len + i]
    }

    fn set_inst_id(&mut self, i: usize, id: u32)
        ensures
            final(final(self).words)@ == final(old(self).words)@,
    {
        self.words[7 * self.len + i] = id;
    }
}

/// The lanes among the first `upto` that hold a hit, in order.
pub open spec fn hit_lanes<T: SoAHit>(packet: T, upto: int) -> Seq<int>
    decreases upto,
{
    if upto <= 0 {
        Seq::empty()
    } else if packet.lane(upto - 1).is_hit() {
        hit_lanes(packet, upto - 1).push(upto - 1)
    } else {
        hit_lanes(packet, upto - 1)
    }
}

impl<const N: usize> RaySoA<N> {
    /// Walks the rays of the packet.
    pub fn iter(&self) -> (it: SoARayIter<'_, RaySoA<N>>)
        ensures
            it.packet == self,
            it.cur == 0,
            it.len == N,
    {
        SoARayIter::new(self, N)
    }

    /// Hands out the rays of the packet for writing, in order.
    pub fn iter_mut(&mut self) -> (it: SoARayIterMut<'_, RaySoA<N>>)
        ensures
            *it.packet == *old(self),
            *final(it.packet) == *final(self),
            it.cur == 0,
            it.len == N,
    {
        SoARayIterMut::new(self, N)
    }
}

impl<const N: usize> HitSoA<N> {
    /// Walks the hits of the packet.
    pub fn iter(&self) -> (it: SoAHitIter<'_, HitSoA<N>>)
        ensures
            it.packet == self,
            it.cur == 0,
            it.len == N,
    {
        SoAHitIter::new(self, N)
    }

    /// The lanes among the first four that hold a hit.
    pub fn iter_hits(&self) -> (v: Vec<SoAHitRef<'_, HitSoA<N>>>)
        requires
            N >= 4,
        ensures
            v@.len() == hit_lanes(*self, 4).len(),
            forall|k: int|
                0 <= k < v@.len() ==> (#[trigger] v@[k]).packet == self && v@[k].idx == hit_lanes(
                    *self,
                    4,
                )[k],
    {
        let mut v: Vec<SoAHitRef<'_, HitSoA<N>>> = Vec::new();
        let mut it = SoAHitIter::new(self, 4);
        let mut i: usize = 0;
        while i < 4
            invariant
                N >= 4,
                i <= 4,
                it.packet == self,
                it.len == 4,
                it.cur == i,
                v@.len() == hit_lanes(*self, i as int).len(),
                forall|k: int|
                    0 <= k < v@.len() ==> (#[trigger] v@[k]).packet == self && v@[k].idx
                        == hit_lanes(*self, i as int)[k],
            decreases 4 - i,
        {
            if let Some(lane) = it.next() {
                if lane.is_valid() {
                    v.push(lane);
                }
            }
            i += 1;
        }
        v
    }
}

/// The two iterators of [`RayHit4::iter`], advanced together.
pub struct RayHit4Iter<'a> {
    pub rays: SoARayIter<'a, Ray4>,
    pub hits: SoAHitIter<'a, Hit4>,
}

impl RayHit4 {
    /// A packet of `ray` without any hit.
    pub fn new(ray: Ray4) -> (r: RayHit4)
        ensures
            r.ray == ray,
            forall|i: int| 0 <= i < 4 ==> #[trigger] r.hit.lane(i) == no_hit(),
    {
        RayHit4 { ray, hit: HitSoA::new() }
    }

    /// Walks the rays and their hits side by side.
    pub fn iter(&self) -> (it: RayHit4Iter<'_>)
        ensures
            it.wf(),
            it.rays.packet == &self.ray,
            it.hits.packet == &self.hit,
            it.rays.cur == 0,
    {
        RayHit4Iter { rays: self.ray.iter(), hits: self.hit.iter() }
    }
}

impl<'a> RayHit4Iter<'a> {
    /// Both iterators walk the four lanes and stand at the same one.
    pub open spec fn wf(&self) -> bool {
        &&& self.rays.len == 4
        &&& self.hits.len == 4
        &&& self.rays.cur == self.hits.cur
    }

    /// The next lane of both packets, or `None` once all have been handed out.
    pub fn next(&mut self) -> (r: Option<(SoARayRef<'a, Ray4>, SoAHitRef<'a, Hit4>)>)
        requires
            old(self).wf(),
        ensures
            final(self).wf(),
            final(self).rays.packet == old(self).rays.packet,
            final(self).hits.packet == old(self).hits.packet,
            match r {
                Some((ray, hit)) => {
                    &&& old(self).rays.cur < 4
                    &&& ray.packet == old(self).rays.packet
                    &&& hit.packet == old(self).hits.packet
                    &&& ray.idx == old(self).rays.cur
                    &&& hit.idx == old(self).rays.cur
                    &&& final(self).rays.cur == old(self).rays.cur + 1
                },
                None => old(self).rays.cur >= 4 && final(self).rays.cur == old(self).rays.cur,
            },
    {
        match (self.rays.next(), self.hits.next()) {
            (Some(ray), Some(hit)) => Some((ray, hit)),
            _ => None,
        }
    }
}

/// `words` with the far end of lane `i` of a packet of `n` rays set to `tfar`.
pub open spec fn with_tfar(words: Seq<u32>, n: nat, i: int, tfar: Real) -> Seq<u32> {
    words.update(8 * n + i, tfar)
}

/// `words` with lane `i` of a packet of `n` hits, whose columns begin at word
/// `base`, set to `h`.
pub open spec fn with_hit(words: Seq<u32>, base: int, n: nat, i: int, h: HitLane) -> Seq<u32> {
    words.update(base + i, h.ng_x).update(base + n + i, h.ng_y).update(
        base + 2 * n + i,
        h.ng_z,
    ).update(base + 3 * n + i, h.u).update(base + 4 * n + i, h.v).update(
        base + 5 * n + i,
        h.prim_id,
    ).update(base + 6 * n + i, h.geom_id).update(base + 7 * n + i, h.inst_id)
}

impl<'a> RayN<'a> {
    /// A view of `len` rays stored in `words`.
    pub fn new(words: &'a mut [u32], len: usize) -> (r: RayN<'a>)
        requires
            old(words).len() == RAY_WORDS * len,
        ensures
            r.wf(),
            r.len == len,
            r.words@ == old(words)@,
            final(r.words)@ == final(words)@,
    {
        RayN { words, len }
    }

    /// Returns the number of rays in the packet.
    pub fn len(&self) -> (n: usize)
        ensures
            n == self.lanes(),
    {
        self.len
    }

    /// Returns true if the packet is empty.
    pub fn is_empty(&self) -> (r: bool)
        ensures
            r == (self.lanes() == 0),
    {
        self.len == 0
    }

    /// Gathers lane `i` into a single ray, all columns in one go.
    pub fn gather_unchecked(&self, i: usize) -> (r: Ray)
        requires
            self.wf(),
            i < self.lanes(),
        ensures
            r == self.lane(i as int),
    {
        let n: usize = self.len;
        Ray {
            org_x: self.words[i],
            org_y: self.words[n + i],
            org_z: self.words[2 * n + i],
            tnear: self.words[3 * n + i],
            dir_x: self.words[4 * n + i],
            dir_y: self.words[5 * n + i],
            dir_z: self.words[6 * n + i],
            time: self.words[7 * n + i],
            tfar: self.words[8 * n + i],
            mask: self.words[9 * n + i],
            id: self.words[10 * n + i],
            flags: self.words[11 * n + i],
        }
    }

    /// Scatters `tfar` into lane `i`.
    pub fn set_tfar_unchecked(&mut self, i: usize, tfar: Real)
        requires
            old(self).wf(),
            i < old(self).lanes(),
        ensures
            final(self).wf(),
            final(self).len == old(self).len,
            final(self).words@ == with_tfar(old(self).words@, old(self).lanes(), i as int, tfar),
            final(final(self).words)@ == final(old(self).words)@,
    {
        self.words[8 * self.len + i] = tfar;
    }
}

impl<'a> HitN<'a> {
    /// A view of `len` hits stored in `words`.
    pub fn new(words: &'a mut [u32], len: usize) -> (r: HitN<'a>)
        requires
            old(words).len() == HIT_WORDS * len,
        ensures
            r.wf(),
            r.len == len,
            r.words@ == old(words)@,
            final(r.words)@ == final(words)@,
    {
        HitN { words, len }
    }

    /// Returns the number of hits in the packet.
    pub fn len(&self) -> (n: usize)
        ensures
            n == self.lanes(),
    {
        self.len
    }

    /// Returns true if the packet is empty.
    pub fn is_empty(&self) -> (r: bool)
        ensures
            r == (self.lanes() == 0),
    {
        self.len == 0
    }

    /// Gathers lane `i` into a single hit, all columns in one go.
    pub fn gather_unchecked(&self, i: usize) -> (h: Hit)
        requires
            self.wf(),
            i < self.lanes(),
        ensures
            h.as_lane() == self.lane(i as int),
    {
        let n: usize = self.len;
        Hit {
            Ng_x: self.words[i],
            Ng_y: self.words[n + i],
            Ng_z: self.words[2 * n + i],
            u: self.words[3 * n + i],
            v: self.words[4 * n + i],
            primID: self.words[5 * n + i],
            geomID: self.words[6 * n + i],
            instID: [self.words[7 * n + i]],
        }
    }

    /// Scatters a single hit into lane `i`, all columns in one go.
    pub fn scatter_unchecked(&mut self, i: usize, hit: &Hit)
        requires
            old(self).wf(),
            i < old(self).lanes(),
        ensures
            final(self).wf(),
            final(self).len == old(self).len,
            final(self).words@ == with_hit(
                old(self).words@,
                0,
                old(self).lanes(),
                i as int,
                hit.as_lane(),
            ),
            final(final(self).words)@ == final(old(self).words)@,
    {
        let n: usize = self.len;
        self.words[i] = hit.Ng_x;
        self.words[n + i] = hit.Ng_y;
        self.words[2 * n + i] = hit.Ng_z;
        self.words[3 * n + i] = hit.u;
        self.words[4 * n + i] = hit.v;
        self.words[5 * n + i] = hit.primID;
        self.words[6 * n + i] = hit.geomID;
        self.words[7 * n + i] = hit.instID[0];
    }
}

impl<'a> RayHitN<'a> {
    /// Whether the packet's storage matches its width.
    pub open spec fn wf(&self) -> bool {
        self.words.len() == (RAY_WORDS + HIT_WORDS) * self.len
    }

    /// The ray in lane `i`.
    pub open spec fn ray(&self, i: int) -> Ray {
        ray_lane(self.words@, self.len as nat, i)
    }

    /// The hit in lane `i`.
    pub open spec fn hit(&self, i: int) -> HitLane {
        hit_lane(self.words@.skip(RAY_WORDS * self.len), self.len as nat, i)
    }

    /// A view of `len` ray/hit pairs stored in `words`.
    pub fn new(words: &'a mut [u32], len: usize) -> (r: RayHitN<'a>)
        requires
            old(words).len() == (RAY_WORDS + HIT_WORDS) * len,
        ensures
            r.wf(),
            r.len == len,
            r.words@ == old(words)@,
            final(r.words)@ == final(words)@,
    {
        RayHitN { words, len }
    }

    /// Returns the ray packet: the first columns.
    pub fn ray_n(&mut self) -> (r: RayN<'_>)
        requires
            old(self).wf(),
        ensures
            r.wf(),
            r.len == old(self).len,
            forall|i: int| 0 <= i < r.lanes() ==> #[trigger] r.lane(i) == old(self).ray(i),
            final(self).len == old(self).len,
            final(self).words@ == final(r.words)@ + old(self).words@.skip(
                RAY_WORDS * old(self).len,
            ),
            final(final(self).words)@ == final(old(self).words)@,
    {
        let n: usize = self.len;
        let (rays, _) = self.words.split_at_mut(RAY_WORDS * n);
        RayN { words: rays, len: n }
    }

    /// Returns the hit packet: the columns that follow those of the rays.
    pub fn hit_n(&mut self) -> (h: HitN<'_>)
        requires
            old(self).wf(),
        ensures
            h.wf(),
            h.len == old(self).len,
            forall|i: int| 0 <= i < h.lanes() ==> #[trigger] h.lane(i) == old(self).hit(i),
            final(self).len == old(self).len,
            final(self).words@
                == old(self).words@.take(RAY_WORDS * old(self).len) + final(h.words)@,
            final(final(self).words)@ == final(old(self).words)@,
    {
        let n: usize = self.len;
        let (_, hits) = self.words.split_at_mut(RAY_WORDS * n);
        HitN { words: hits, len: n }
    }

    /// Returns the ray packet and the hit packet side by side.
    pub fn split(&mut self) -> (r: (RayN<'_>, HitN<'_>))
        requires
            old(self).wf(),
        ensures
            r.0.wf(),
            r.1.wf(),
            r.0.len == old(self).len,
            r.1.len == old(self).len,
            forall|i: int| 0 <= i < r.0.lanes() ==> #[trigger] r.0.lane(i) == old(self).ray(i),
            forall|i: int| 0 <= i < r.1.lanes() ==> #[trigger] r.1.lane(i) == old(self).hit(i),
            final(self).len == old(self).len,
            final(self).words@ == final(r.0.words)@ + final(r.1.words)@,
            final(final(self).words)@ == final(old(self).words)@,
    {
        let n: usize = self.len;
        let (rays, hits) = self.words.split_at_mut(RAY_WORDS * n);
        (RayN { words: rays, len: n }, HitN { words: hits, len: n })
    }

    /// Returns the number of ray/hit pairs in the packet.
    pub fn len(&self) -> (n: usize)
        ensures
            n == self.len,
    {
        self.len
    }

    /// Returns true if the packet is empty.
    pub fn is_empty(&self) -> (r: bool)
        ensures
            r == (self.len == 0),
    {
        self.len == 0
    }
}

/// Scattering a hit into a lane and reading that lane back gives the hit; every
/// other lane of the packet reads as before.
pub proof fn lemma_hit_lane_round_trip(words: Seq<u32>, n: nat, i: int, j: int, h: HitLane)
    requires
        words.len() == HIT_WORDS * n,
        0 <= i < n,
        0 <= j < n,
    ensures
        hit_lane(with_hit(words, 0, n, i, h), n, j) == (if j == i {
            h
        } else {
            hit_lane(words, n, j)
        }),
{
}

/// Setting the far end of a lane changes that component of that lane alone.
pub proof fn lemma_tfar_lane_round_trip(words: Seq<u32>, n: nat, i: int, j: int, tfar: Real)
    requires
        words.len() == RAY_WORDS * n,
        0 <= i < n,
        0 <= j < n,
    ensures
        ray_lane(with_tfar(words, n, i, tfar), n, j) == (if j == i {
            Ray { tfar, ..ray_lane(words, n, i) }
        } else {
            ray_lane(words, n, j)
        }),
{
}

/// In a combined packet, writing a hit leaves every ray as it is, and setting
/// the far end of a ray leaves every hit as it is.
pub proof fn lemma_ray_and_hit_columns_apart(
    words: Seq<u32>,
    n: nat,
    i: int,
    j: int,
    h: HitLane,
    tfar: Real,
)
    requires
        words.len() == (RAY_WORDS + HIT_WORDS) * n,
        0 <= i < n,
        0 <= j < n,
    ensures
        ray_lane(with_hit(words, RAY_WORDS * n, n, i, h), n, j) == ray_lane(words, n, j),
        hit_lane(with_tfar(words, n, i, tfar).skip(RAY_WORDS * n), n, j) == hit_lane(
            words.skip(RAY_WORDS * n),
            n,
            j,
        ),
{
    assert(RAY_WORDS * n == 12 * n && (RAY_WORDS + HIT_WORDS) * n == 20 * n);
}

/// The columns of a native ray packet are the origin, the near end, the direction, the
/// time, the far end, the mask, the ID and the flags, in this order; lane `i` is entry
/// `i` of each.
pub proof fn lemma_native_ray_columns(words: Seq<u32>, n: nat, i: int)
    requires
        words.len() >= 12 * n,
        0 <= i < n,
    ensures
        ({
            let r = ray_lane(words, n, i);
            &&& words[i] == r.org_x
            &&& words[n + i] == r.org_y
            &&& words[2 * n + i] == r.org_z
            &&& words[3 * n + i] == r.tnear
            &&& words[4 * n + i] == r.dir_x
            &&& words[5 * n + i] == r.dir_y
            &&& words[6 * n + i] == r.dir_z
            &&& words[7 * n + i] == r.time
            &&& words[8 * n + i] == r.tfar
            &&& words[9 * n + i] == r.mask
            &&& words[10 * n + i] == r.id
            &&& words[11 * n + i] == r.flags
        }),
{
}

/// The columns of a native hit packet are the normal, the two coordinates, and the IDs
/// of the primitive, the geometry and the instance, in this order.
pub proof fn lemma_native_hit_columns(words: Seq<u32>, n: nat, i: int)
    requires
        words.len() >= 8 * n,
        0 <= i < n,
    ensures
        ({
            let h = hit_lane(words, n, i);
            &&& words[i] == h.ng_x
            &&& words[n + i] == h.ng_y
            &&& words[2 * n + i] == h.ng_z
            &&& words[3 * n + i] == h.u
            &&& words[4 * n + i] == h.v
            &&& words[5 * n + i] == h.prim_id
            &&& words[6 * n + i] == h.geom_id
            &&& words[7 * n + i] == h.inst_id
        }),
{
}

/// A hit that is written to lane `i` of a native packet, whose hit columns begin at
/// word `base`, stands in the native columns of that lane, and no other word changes.
pub proof fn lemma_hits_are_written_to_native_columns(
    words: Seq<u32>,
    base: int,
    n: nat,
    i: int,
    hit: Hit,
    w: int,
)
    requires
        0 <= base,
        words.len() >= base + 8 * n,
        0 <= i < n,
        0 <= w < words.len(),
    ensures
        ({
            let after = with_hit(words, base, n, i, hit.as_lane());
            &&& after.len() == words.len()
            &&& after[base + i] == hit.Ng_x
            &&& after[base + n + i] == hit.Ng_y
            &&& after[base + 2 * n + i] == hit.Ng_z
            &&& after[base + 3 * n + i] == hit.u
            &&& after[base + 4 * n + i] == hit.v
            &&& after[base + 5 * n + i] == hit.primID
            &&& after[base + 6 * n + i] == hit.geomID
            &&& after[base + 7 * n + i] == hit.instID[0]
            &&& w != base + i && w != base + n + i && w != base + 2 * n + i && w != base + 3 * n + i
                && w != base + 4 * n + i && w != base + 5 * n + i && w != base + 6 * n + i && w
                != base + 7 * n + i ==> after[w] == words[w]
        }),
{
}

/// The far end of lane `i` is word `8 * n + i` of a native packet; setting it changes
/// no other word.
pub proof fn lemma_far_ends_are_written_to_their_column(
    words: Seq<u32>,
    n: nat,
    i: int,
    tfar: Real,
    w: int,
)
    requires
        words.len() >= 12 * n,
        0 <= i < n,
        0 <= w < words.len(),
    ensures
        with_tfar(words, n, i, tfar).len() == words.len(),
        with_tfar(words, n, i, tfar)[w] == (if w == 8 * n + i {
            tfar
        } else {
            words[w]
        }),
{
}

/// The rays of a packet begin at the origins they were given and run along the
/// directions they were given: what each column of the packet holds is that component
/// of each ray.
pub proof fn lemma_packets_run_as_given<const N: usize>(
    r: RaySoA<N>,
    origin: [[Real; 3]; N],
    dir: [[Real; 3]; N],
    tnear: [Real; N],
    tfar: [Real; N],
    i: int,
)
    requires
        0 <= i < N,
        r.lane(i) == segment_ray(origin[i], dir[i], tnear[i], tfar[i]),
    ensures
        r.org_x[i] == origin[i][0],
        r.org_y[i] == origin[i][1],
        r.org_z[i] == origin[i][2],
        r.dir_x[i] == dir[i][0],
        r.dir_y[i] == dir[i][1],
        r.dir_z[i] == dir[i][2],
        r.tnear[i] == tnear[i],
        r.tfar[i] == tfar[i],
        r.time[i] == 0,
        r.mask[i] == 0xffff_ffff,
        r.id[i] == 0,
        r.flags[i] == 0,
{
}

/// A lane of a packet of fixed width is entry `i` of each of its columns; the packet
/// has as many lanes as its width says.
pub proof fn lemma_lanes_are_entries_of_the_columns<const N: usize>(
    r: RaySoA<N>,
    h: HitSoA<N>,
    i: int,
)
    requires
        0 <= i < N,
    ensures
        r.wf() && r.lanes() == N,
        r.lane(i).org_x == r.org_x[i],
        r.lane(i).org_y == r.org_y[i],
        r.lane(i).org_z == r.org_z[i],
        r.lane(i).tnear == r.tnear[i],
        r.lane(i).dir_x == r.dir_x[i],
        r.lane(i).dir_y == r.dir_y[i],
        r.lane(i).dir_z == r.dir_z[i],
        r.lane(i).time == r.time[i],
        r.lane(i).tfar == r.tfar[i],
        r.lane(i).mask == r.mask[i],
        r.lane(i).id == r.id[i],
        r.lane(i).flags == r.flags[i],
        h.wf() && h.lanes() == N,
        h.lane(i).ng_x == h.Ng_x[i],
        h.lane(i).ng_y == h.Ng_y[i],
        h.lane(i).ng_z == h.Ng_z[i],
        h.lane(i).u == h.u[i],
        h.lane(i).v == h.v[i],
        h.lane(i).prim_id == h.primID[i],
        h.lane(i).geom_id == h.geomID[i],
        h.lane(i).inst_id == h.instID[0][i],
        h.lane(i).is_hit() <==> h.geomID[i] != 0xffff_ffff,
{
}

/// A view of a native packet reads the native columns: 12 words for each ray, 8 for
/// each hit, and in a combined packet the hits behind the rays.
pub proof fn lemma_views_read_native_columns(r: RayN<'_>, h: HitN<'_>, rh: RayHitN<'_>, i: int)
    ensures
        r.lanes() == r.len,
        h.lanes() == h.len,
        r.wf() <==> old(r.words)@.len() == 12 * r.len,
        h.wf() <==> old(h.words)@.len() == 8 * h.len,
        rh.wf() <==> old(rh.words)@.len() == 20 * rh.len,
        r.wf() && 0 <= i < r.len ==> {
            let w = old(r.words)@;
            &&& r.lane(i).org_x == w[i]
            &&& r.lane(i).org_y == w[r.len + i]
            &&& r.lane(i).org_z == w[2 * r.len + i]
            &&& r.lane(i).tnear == w[3 * r.len + i]
            &&& r.lane(i).dir_x == w[4 * r.len + i]
            &&& r.lane(i).dir_y == w[5 * r.len + i]
            &&& r.lane(i).dir_z == w[6 * r.len + i]
            &&& r.lane(i).time == w[7 * r.len + i]
            &&& r.lane(i).tfar == w[8 * r.len + i]
            &&& r.lane(i).mask == w[9 * r.len + i]
            &&& r.lane(i).id == w[10 * r.len + i]
            &&& r.lane(i).flags == w[11 * r.len + i]
        },
        h.wf() && 0 <= i < h.len ==> {
            let w = old(h.words)@;
            &&& h.lane(i).ng_x == w[i]
            &&& h.lane(i).ng_y == w[h.len + i]
            &&& h.lane(i).ng_z == w[2 * h.len + i]
            &&& h.lane(i).u == w[3 * h.len + i]
            &&& h.lane(i).v == w[4 * h.len + i]
            &&& h.lane(i).prim_id == w[5 * h.len + i]
            &&& h.lane(i).geom_id == w[6 * h.len + i]
            &&& h.lane(i).inst_id == w[7 * h.len + i]
        },
        rh.wf() && 0 <= i < rh.len ==> {
            let w = old(rh.words)@;
            &&& rh.ray(i).org_x == w[i]
            &&& rh.ray(i).dir_x == w[4 * rh.len + i]
            &&& rh.ray(i).tfar == w[8 * rh.len + i]
            &&& rh.ray(i).flags == w[11 * rh.len + i]
            &&& rh.hit(i).ng_x == w[12 * rh.len + i]
            &&& rh.hit(i).ng_y == w[13 * rh.len + i]
            &&& rh.hit(i).ng_z == w[14 * rh.len + i]
            &&& rh.hit(i).u == w[15 * rh.len + i]
            &&& rh.hit(i).v == w[16 * rh.len + i]
            &&& rh.hit(i).prim_id == w[17 * rh.len + i]
            &&& rh.hit(i).geom_id == w[18 * rh.len + i]
            &&& rh.hit(i).inst_id == w[19 * rh.len + i]
        },
{
}

/// The lanes that hold a hit come in order, each once, and none is missing.
pub proof fn lemma_hit_lanes_are_all_hits<T: SoAHit>(packet: T, upto: int)
    requires
        0 <= upto,
    ensures
        forall|k: int|
            0 <= k < hit_lanes(packet, upto).len() ==> 0 <= #[trigger] hit_lanes(packet, upto)[k]
                < upto && packet.lane(hit_lanes(packet, upto)[k]).geom_id != 0xffff_ffff,
        forall|j: int, k: int|
            0 <= j < k < hit_lanes(packet, upto).len() ==> #[trigger] hit_lanes(packet, upto)[j]
                < #[trigger] hit_lanes(packet, upto)[k],
        forall|i: int|
            0 <= i < upto && (#[trigger] packet.lane(i)).geom_id != 0xffff_ffff ==> hit_lanes(
                packet,
                upto,
            ).contains(i),
    decreases upto,
{
    if upto > 0 {
        lemma_hit_lanes_are_all_hits(packet, upto - 1);
        let before = hit_lanes(packet, upto - 1);
        assert forall|i: int|
            0 <= i < upto && (#[trigger] packet.lane(i)).geom_id
                != 0xffff_ffff implies hit_lanes(packet, upto).contains(i) by {
            if i < upto - 1 {
                let k = before.index_of(i);
                assert(hit_lanes(packet, upto)[k] == i);
            } else {
                assert(hit_lanes(packet, upto)[before.len() as int] == i);
            }
        }
    }
}

/// What a view of rays reads of a lane is what stands in the columns of the layout.
pub proof fn lemma_ray_views_read_their_columns<'a>(
    p: &RayN<'a>,
    i: usize,
    x: u32,
    x3: [Real; 3],
)
    requires
        p.wf(),
        i < p.lanes(),
    ensures
        ({
            let (n, words) = (p.len, old(p.words)@);
            &&& call_ensures(<RayN<'a> as SoARay>::org, (p, i), x3) ==> x3[0] == words[i as int]
                && x3[1] == words[n + i]
                && x3[2] == words[2 * n + i]
            &&& call_ensures(<RayN<'a> as SoARay>::dir, (p, i), x3) ==> x3[0] == words[4 * n + i]
                && x3[1] == words[5 * n + i]
                && x3[2] == words[6 * n + i]
            &&& call_ensures(<RayN<'a> as SoARay>::tnear, (p, i), x) ==> x == words[3 * n + i]
            &&& call_ensures(<RayN<'a> as SoARay>::tfar, (p, i), x) ==> x == words[8 * n + i]
            &&& call_ensures(<RayN<'a> as SoARay>::time, (p, i), x) ==> x == words[7 * n + i]
            &&& call_ensures(<RayN<'a> as SoARay>::mask, (p, i), x) ==> x == words[9 * n + i]
            &&& call_ensures(<RayN<'a> as SoARay>::id, (p, i), x) ==> x == words[10 * n + i]
            &&& call_ensures(<RayN<'a> as SoARay>::flags, (p, i), x) ==> x == words[11 * n + i]
        }),
{
}

/// What is set of a lane of a view of rays goes to its columns of the layout, in the
/// order of the components, and nowhere else.
pub proof fn lemma_ray_views_write_their_columns<'a>(
    p: &mut RayN<'a>,
    i: usize,
    j: int,
    x: u32,
    x3: [Real; 3],
)
    requires
        old(p).wf(),
        i < old(p).lanes(),
        0 <= j < old(p).lanes(),
        j != i,
    ensures
        ({
            let n = old(p).len;
            let (was, now) = (old(p).lane(i as int), final(p).lane(i as int));
            &&& call_ensures(<RayN<'a> as SoARay>::set_org, (p, i, x3), ()) ==> {
                &&& final(p).words@[i as int] == x3[0]
                &&& final(p).words@[n + i] == x3[1]
                &&& final(p).words@[2 * n + i] == x3[2]
                &&& now == (Ray { org_x: x3[0], org_y: x3[1], org_z: x3[2], ..was })
                &&& final(p).lane(j) == old(p).lane(j)
            }
            &&& call_ensures(<RayN<'a> as SoARay>::set_dir, (p, i, x3), ()) ==> {
                &&& final(p).words@[4 * n + i] == x3[0]
                &&& final(p).words@[5 * n + i] == x3[1]
                &&& final(p).words@[6 * n + i] == x3[2]
                &&& now == (Ray { dir_x: x3[0], dir_y: x3[1], dir_z: x3[2], ..was })
                &&& final(p).lane(j) == old(p).lane(j)
            }
            &&& call_ensures(<RayN<'a> as SoARay>::set_tnear, (p, i, x), ()) ==> {
                &&& final(p).words@[3 * n + i] == x
                &&& now == (Ray { tnear: x, ..was })
                &&& final(p).lane(j) == old(p).lane(j)
            }
            &&& call_ensures(<RayN<'a> as SoARay>::set_tfar, (p, i, x), ()) ==> {
                &&& final(p).words@[8 * n + i] == x
                &&& now == (Ray { tfar: x, ..was })
                &&& final(p).lane(j) == old(p).lane(j)
            }
            &&& call_ensures(<RayN<'a> as SoARay>::set_time, (p, i, x), ()) ==> {
                &&& final(p).words@[7 * n + i] == x
                &&& now == (Ray { time: x, ..was })
                &&& final(p).lane(j) == old(p).lane(j)
            }
            &&& call_ensures(<RayN<'a> as SoARay>::set_mask, (p, i, x), ()) ==> {
                &&& final(p).words@[9 * n + i] == x
                &&& now == (Ray { mask: x, ..was })
                &&& final(p).lane(j) == old(p).lane(j)
            }
            &&& call_ensures(<RayN<'a> as SoARay>::set_id, (p, i, x), ()) ==> {
                &&& final(p).words@[10 * n + i] == x
                &&& now == (Ray { id: x, ..was })
                &&& final(p).lane(j) == old(p).lane(j)
            }
            &&& call_ensures(<RayN<'a> as SoARay>::set_flags, (p, i, x), ()) ==> {
                &&& final(p).words@[11 * n + i] == x
                &&& now == (Ray { flags: x, ..was })
                &&& final(p).lane(j) == old(p).lane(j)
            }
        }),
{
}

/// What a view of hits reads of a lane is what stands in the columns of the layout.
pub proof fn lemma_hit_views_read_their_columns<'a>(
    p: &HitN<'a>,
    i: usize,
    x: u32,
    x3: [Real; 3],
    x2: [Real; 2],
)
    requires
        p.wf(),
        i < p.lanes(),
    ensures
        ({
            let (n, words) = (p.len, old(p.words)@);
            &&& call_ensures(<HitN<'a> as SoAHit>::normal, (p, i), x3) ==> x3[0] == words[i as int]
                && x3[1] == words[n + i]
                && x3[2] == words[2 * n + i]
            &&& call_ensures(<HitN<'a> as SoAHit>::u, (p, i), x) ==> x == words[3 * n + i]
            &&& call_ensures(<HitN<'a> as SoAHit>::v, (p, i), x) ==> x == words[4 * n + i]
            &&& call_ensures(<HitN<'a> as SoAHit>::uv, (p, i), x2) ==> x2[0] == words[3 * n + i]
                && x2[1] == words[4 * n + i]
            &&& call_ensures(<HitN<'a> as SoAHit>::prim_id, (p, i), x) ==> x == words[5 * n + i]
            &&& call_ensures(<HitN<'a> as SoAHit>::geom_id, (p, i), x) ==> x == words[6 * n + i]
            &&& call_ensures(<HitN<'a> as SoAHit>::inst_id, (p, i), x) ==> x == words[7 * n + i]
        }),
{
}

/// What is set of a lane of a view of hits goes to its columns of the layout, in the
/// order of the components, and nowhere else.
pub proof fn lemma_hit_views_write_their_columns<'a>(
    p: &mut HitN<'a>,
    i: usize,
    j: int,
    x: u32,
    x3: [Real; 3],
    x2: [Real; 2],
)
    requires
        old(p).wf(),
        i < old(p).lanes(),
        0 <= j < old(p).lanes(),
        j != i,
    ensures
        ({
            let n = old(p).len;
            let (was, now) = (old(p).lane(i as int), final(p).lane(i as int));
            &&& call_ensures(<HitN<'a> as SoAHit>::set_normal, (p, i, x3), ()) ==> {
                &&& final(p).words@[i as int] == x3[0]
                &&& final(p).words@[n + i] == x3[1]
                &&& final(p).words@[2 * n + i] == x3[2]
                &&& now == (HitLane { ng_x: x3[0], ng_y: x3[1], ng_z: x3[2], ..was })
                &&& final(p).lane(j) == old(p).lane(j)
            }
            &&& call_ensures(<HitN<'a> as SoAHit>::set_u, (p, i, x), ()) ==> {
                &&& final(p).words@[3 * n + i] == x
                &&& now == (HitLane { u: x, ..was })
                &&& final(p).lane(j) == old(p).lane(j)
            }
            &&& call_ensures(<HitN<'a> as SoAHit>::set_v, (p, i, x), ()) ==> {
                &&& final(p).words@[4 * n + i] == x
                &&& now == (HitLane { v: x, ..was })
                &&& final(p).lane(j) == old(p).lane(j)
            }
            &&& call_ensures(<HitN<'a> as SoAHit>::set_uv, (p, i, x2), ()) ==> {
                &&& final(p).words@[3 * n + i] == x2[0]
                &&& final(p).words@[4 * n + i] == x2[1]
                &&& now == (HitLane { u: x2[0], v: x2[1], ..was })
                &&& final(p).lane(j) == old(p).lane(j)
            }
            &&& call_ensures(<HitN<'a> as SoAHit>::set_prim_id, (p, i, x), ()) ==> {
                &&& final(p).words@[5 * n + i] == x
                &&& now == (HitLane { prim_id: x, ..was })
                &&& final(p).lane(j) == old(p).lane(j)
            }
            &&& call_ensures(<HitN<'a> as SoAHit>::set_geom_id, (p, i, x), ()) ==> {
                &&& final(p).words@[6 * n + i] == x
                &&& now == (HitLane { geom_id: x, ..was })
                &&& final(p).lane(j) == old(p).lane(j)
            }
            &&& call_ensures(<HitN<'a> as SoAHit>::set_inst_id, (p, i, x), ()) ==> {
                &&& final(p).words@[7 * n + i] == x
                &&& now == (HitLane { inst_id: x, ..was })
                &&& final(p).lane(j) == old(p).lane(j)
            }
        }),
{
}

/// What a packet of rays reads of a lane are the entries of its arrays.
pub proof fn lemma_ray_packets_read_their_columns<const N: usize>(
    p: &RaySoA<N>,
    i: usize,
    x: u32,
    x3: [Real; 3],
)
    requires
        p.wf(),
        i < p.lanes(),
    ensures
        call_ensures(<RaySoA<N> as SoARay>::org, (p, i), x3) ==> x3[0] == p.org_x[i as int]
            && x3[1] == p.org_y[i as int]
            && x3[2] == p.org_z[i as int],
        call_ensures(<RaySoA<N> as SoARay>::dir, (p, i), x3) ==> x3[0] == p.dir_x[i as int]
            && x3[1] == p.dir_y[i as int]
            && x3[2] == p.dir_z[i as int],
        call_ensures(<RaySoA<N> as SoARay>::tnear, (p, i), x) ==> x == p.tnear[i as int],
        call_ensures(<RaySoA<N> as SoARay>::tfar, (p, i), x) ==> x == p.tfar[i as int],
        call_ensures(<RaySoA<N> as SoARay>::time, (p, i), x) ==> x == p.time[i as int],
        call_ensures(<RaySoA<N> as SoARay>::mask, (p, i), x) ==> x == p.mask[i as int],
        call_ensures(<RaySoA<N> as SoARay>::id, (p, i), x) ==> x == p.id[i as int],
        call_ensures(<RaySoA<N> as SoARay>::flags, (p, i), x) ==> x == p.flags[i as int],
{
}

/// What is set of a lane of a packet of rays goes to its own arrays, in the order of the
/// components, and nowhere else.
pub proof fn lemma_ray_packets_write_their_columns<const N: usize>(
    p: &mut RaySoA<N>,
    i: usize,
    j: int,
    x: u32,
    x3: [Real; 3],
)
    requires
        old(p).wf(),
        i < old(p).lanes(),
        0 <= j < old(p).lanes(),
        j != i,
    ensures
        ({
            let (was, now) = (old(p).lane(i as int), final(p).lane(i as int));
            &&& call_ensures(<RaySoA<N> as SoARay>::set_org, (p, i, x3), ()) ==> {
                &&& final(p).org_x[i as int] == x3[0]
                &&& final(p).org_y[i as int] == x3[1]
                &&& final(p).org_z[i as int] == x3[2]
                &&& now == (Ray { org_x: x3[0], org_y: x3[1], org_z: x3[2], ..was })
                &&& final(p).lane(j) == old(p).lane(j)
            }
            &&& call_ensures(<RaySoA<N> as SoARay>::set_dir, (p, i, x3), ()) ==> {
                &&& final(p).dir_x[i as int] == x3[0]
                &&& final(p).dir_y[i as int] == x3[1]
                &&& final(p).dir_z[i as int] == x3[2]
                &&& now == (Ray { dir_x: x3[0], dir_y: x3[1], dir_z: x3[2], ..was })
                &&& final(p).lane(j) == old(p).lane(j)
            }
            &&& call_ensures(<RaySoA<N> as SoARay>::set_tnear, (p, i, x), ()) ==> {
                &&& final(p).tnear[i as int] == x
                &&& now == (Ray { tnear: x, ..was })
                &&& final(p).lane(j) == old(p).lane(j)
            }
            &&& call_ensures(<RaySoA<N> as SoARay>::set_tfar, (p, i, x), ()) ==> {
                &&& final(p).tfar[i as int] == x
                &&& now == (Ray { tfar: x, ..was })
                &&& final(p).lane(j) == old(p).lane(j)
            }
            &&& call_ensures(<RaySoA<N> as SoARay>::set_time, (p, i, x), ()) ==> {
                &&& final(p).time[i as int] == x
                &&& now == (Ray { time: x, ..was })
                &&& final(p).lane(j) == old(p).lane(j)
            }
            &&& call_ensures(<RaySoA<N> as SoARay>::set_mask, (p, i, x), ()) ==> {
                &&& final(p).mask[i as int] == x
                &&& now == (Ray { mask: x, ..was })
                &&& final(p).lane(j) == old(p).lane(j)
            }
            &&& call_ensures(<RaySoA<N> as SoARay>::set_id, (p, i, x), ()) ==> {
                &&& final(p).id[i as int] == x
                &&& now == (Ray { id: x, ..was })
                &&& final(p).lane(j) == old(p).lane(j)
            }
            &&& call_ensures(<RaySoA<N> as SoARay>::set_flags, (p, i, x), ()) ==> {
                &&& final(p).flags[i as int] == x
                &&& now == (Ray { flags: x, ..was })
                &&& final(p).lane(j) == old(p).lane(j)
            }
        }),
{
}

/// What a packet of hits reads of a lane are the entries of its arrays.
pub proof fn lemma_hit_packets_read_their_columns<const N: usize>(
    p: &HitSoA<N>,
    i: usize,
    x: u32,
    x3: [Real; 3],
    x2: [Real; 2],
)
    requires
        p.wf(),
        i < p.lanes(),
    ensures
        call_ensures(<HitSoA<N> as SoAHit>::normal, (p, i), x3) ==> x3[0] == p.Ng_x[i as int]
            && x3[1] == p.Ng_y[i as int]
            && x3[2] == p.Ng_z[i as int],
        call_ensures(<HitSoA<N> as SoAHit>::u, (p, i), x) ==> x == p.u[i as int],
        call_ensures(<HitSoA<N> as SoAHit>::v, (p, i), x) ==> x == p.v[i as int],
        call_ensures(<HitSoA<N> as SoAHit>::uv, (p, i), x2) ==> x2[0] == p.u[i as int]
            && x2[1] == p.v[i as int],
        call_ensures(<HitSoA<N> as SoAHit>::prim_id, (p, i), x) ==> x == p.primID[i as int],
        call_ensures(<HitSoA<N> as SoAHit>::geom_id, (p, i), x) ==> x == p.geomID[i as int],
        call_ensures(<HitSoA<N> as SoAHit>::inst_id, (p, i), x) ==> x == p.instID[0][i as int],
{
}

/// What is set of a lane of a packet of hits goes to its own arrays, in the order of the
/// components, and nowhere else.
pub proof fn lemma_hit_packets_write_their_columns<const N: usize>(
    p: &mut HitSoA<N>,
    i: usize,
    j: int,
    x: u32,
    x3: [Real; 3],
    x2: [Real; 2],
)
    requires
        old(p).wf(),
        i < old(p).lanes(),
        0 <= j < old(p).lanes(),
        j != i,
    ensures
        ({
            let (was, now) = (old(p).lane(i as int), final(p).lane(i as int));
            &&& call_ensures(<HitSoA<N> as SoAHit>::set_normal, (p, i, x3), ()) ==> {
                &&& final(p).Ng_x[i as int] == x3[0]
                &&& final(p).Ng_y[i as int] == x3[1]
                &&& final(p).Ng_z[i as int] == x3[2]
                &&& now == (HitLane { ng_x: x3[0], ng_y: x3[1], ng_z: x3[2], ..was })
                &&& final(p).lane(j) == old(p).lane(j)
            }
            &&& call_ensures(<HitSoA<N> as SoAHit>::set_u, (p, i, x), ()) ==> {
                &&& final(p).u[i as int] == x
                &&& now == (HitLane { u: x, ..was })
                &&& final(p).lane(j) == old(p).lane(j)
            }
            &&& call_ensures(<HitSoA<N> as SoAHit>::set_v, (p, i, x), ()) ==> {
                &&& final(p).v[i as int] == x
                &&& now == (HitLane { v: x, ..was })
                &&& final(p).lane(j) == old(p).lane(j)
            }
            &&& call_ensures(<HitSoA<N> as SoAHit>::set_uv, (p, i, x2), ()) ==> {
                &&& final(p).u[i as int] == x2[0]
                &&& final(p).v[i as int] == x2[1]
                &&& now == (HitLane { u: x2[0], v: x2[1], ..was })
                &&& final(p).lane(j) == old(p).lane(j)
            }
            &&& call_ensures(<HitSoA<N> as SoAHit>::set_prim_id, (p, i, x), ()) ==> {
                &&& final(p).primID[i as int] == x
                &&& now == (HitLane { prim_id: x, ..was })
                &&& final(p).lane(j) == old(p).lane(j)
            }
            &&& call_ensures(<HitSoA<N> as SoAHit>::set_geom_id, (p, i, x), ()) ==> {
                &&& final(p).geomID[i as int] == x
                &&& now == (HitLane { geom_id: x, ..was })
                &&& final(p).lane(j) == old(p).lane(j)
            }
            &&& call_ensures(<HitSoA<N> as SoAHit>::set_inst_id, (p, i, x), ()) ==> {
                &&& final(p).instID[0][i as int] == x
                &&& now == (HitLane { inst_id: x, ..was })
                &&& final(p).lane(j) == old(p).lane(j)
            }
        }),
{
}

/// Every lane of a packet that is made runs from its origin along its direction, between
/// its own ends or else from zero to infinity, at time zero, seen by every geometry and
/// with no number and no flags.
pub proof fn lemma_packets_are_made_lane_by_lane<const N: usize>(
    origin: [[Real; 3]; N],
    dir: [[Real; 3]; N],
    tnear: [Real; N],
    tfar: [Real; N],
    between: RaySoA<N>,
    unlimited: RaySoA<N>,
    empty: RaySoA<N>,
    i: int,
)
    requires
        call_ensures(RaySoA::<N>::segment, (origin, dir, tnear, tfar), between),
        call_ensures(RaySoA::<N>::new, (origin, dir), unlimited),
        call_ensures(RaySoA::<N>::empty, (), empty),
        0 <= i < N,
    ensures
        between.org_x[i] == origin[i][0],
        between.org_y[i] == origin[i][1],
        between.org_z[i] == origin[i][2],
        between.dir_x[i] == dir[i][0],
        between.dir_y[i] == dir[i][1],
        between.dir_z[i] == dir[i][2],
        between.tnear[i] == tnear[i],
        between.tfar[i] == tfar[i],
        between.time[i] == 0,
        between.mask[i] == 0xffff_ffffu32,
        between.id[i] == 0,
        between.flags[i] == 0,
        unlimited.org_x[i] == origin[i][0],
        unlimited.org_y[i] == origin[i][1],
        unlimited.org_z[i] == origin[i][2],
        unlimited.dir_x[i] == dir[i][0],
        unlimited.dir_y[i] == dir[i][1],
        unlimited.dir_z[i] == dir[i][2],
        unlimited.tnear[i] == 0,
        unlimited.tfar[i] == 0x7f80_0000u32,
        unlimited.time[i] == 0,
        unlimited.mask[i] == 0xffff_ffffu32,
        unlimited.id[i] == 0,
        unlimited.flags[i] == 0,
        empty.org_x[i] == 0,
        empty.org_y[i] == 0,
        empty.org_z[i] == 0,
        empty.dir_x[i] == 0,
        empty.dir_y[i] == 0,
        empty.dir_z[i] == 0,
        empty.tnear[i] == 0,
        empty.tfar[i] == 0x7f80_0000u32,
        empty.mask[i] == 0xffff_ffffu32,
{
    assert(between.lane(i).org_x == between.org_x[i]);
    assert(unlimited.lane(i).org_x == unlimited.org_x[i]);
    assert(empty.lane(i).org_x == empty.org_x[i]);
}

/// A lane is a hit exactly if it names a geometry. A packet that is made names none, and
/// of one that has hits each is listed once, in the order of the lanes.
pub proof fn lemma_hits_name_a_geometry<const N: usize>(
    p: &HitSoA<N>,
    made: HitSoA<N>,
    any: bool,
    valid: Vec<bool>,
    hits: Vec<SoAHitRef<'_, HitSoA<N>>>,
    i: int,
    k: int,
    l: int,
)
    requires
        call_ensures(HitSoA::<N>::new, (), made),
        call_ensures(HitSoA::<N>::any_hit, (p,), any),
        call_ensures(HitSoA::<N>::iter_validity, (p,), valid),
        call_ensures(HitSoA::<N>::iter_hits, (p,), hits),
        0 <= i < N,
    ensures
        made.geomID[i] == 0xffff_ffffu32,
        made.primID[i] == 0xffff_ffffu32,
        made.instID[0][i] == 0xffff_ffffu32,
        made.Ng_x[i] == 0 && made.Ng_y[i] == 0 && made.Ng_z[i] == 0,
        made.u[i] == 0 && made.v[i] == 0,
        valid@.len() == N,
        valid@[i] <==> p.geomID[i] != 0xffff_ffffu32,
        valid@[i] ==> any,
        !any ==> p.geomID[i] == 0xffff_ffffu32,
        0 <= k < l < hits@.len() ==> hits@[k].idx < hits@[l].idx,
        0 <= k < hits@.len() ==> {
            &&& hits@[k].packet == p
            &&& hits@[k].idx < 4
            &&& p.geomID[hits@[k].idx as int] != 0xffff_ffffu32
        },
        i < 4 && p.geomID[i] != 0xffff_ffffu32 ==> exists|m: int|
            0 <= m < hits@.len() && (#[trigger] hits@[m]).idx == i,
{
    assert(made.lane(i).geom_id == made.geomID[i]);
    assert(p.lane(i).geom_id == p.geomID[i]);
    assert(p.lane(i).is_hit() <==> p.geomID[i] != 0xffff_ffffu32);
    lemma_hit_lanes_are_all_hits(*p, 4);
    let lanes = hit_lanes(*p, 4);
    assert(0 <= k < lanes.len() ==> hits@[k].idx == lanes[k]);
    assert(0 <= l < lanes.len() ==> hits@[l].idx == lanes[l]);
    if i < 4 && p.geomID[i] != 0xffff_ffffu32 {
        let m = choose|m: int| 0 <= m < lanes.len() && lanes[m] == i;
        assert(hits@[m].idx == lanes[m]);
    }
}

/// Rays and hits are gathered from the columns of their lane.
pub proof fn lemma_lanes_are_gathered_from_their_columns(
    rays: &RayN<'_>,
    hits: &HitN<'_>,
    i: usize,
    ray: Ray,
    hit: Hit,
)
    requires
        call_ensures(RayN::<'_>::gather_unchecked, (rays, i), ray),
        call_ensures(HitN::<'_>::gather_unchecked, (hits, i), hit),
        rays.wf(),
        hits.wf(),
        i < rays.len,
        i < hits.len,
    ensures
        ({
            let (n, words) = (rays.len, old(rays.words)@);
            &&& ray.org_x == words[i as int] && ray.org_y == words[n + i]
            &&& ray.org_z == words[2 * n + i]
            &&& ray.tnear == words[3 * n + i]
            &&& ray.dir_x == words[4 * n + i] && ray.dir_y == words[5 * n + i] && ray.dir_z
                == words[6 * n + i]
            &&& ray.time == words[7 * n + i]
            &&& ray.tfar == words[8 * n + i]
            &&& ray.mask == words[9 * n + i]
            &&& ray.id == words[10 * n + i]
            &&& ray.flags == words[11 * n + i]
        }),
        ({
            let (n, words) = (hits.len, old(hits.words)@);
            &&& hit.Ng_x == words[i as int] && hit.Ng_y == words[n + i]
            &&& hit.Ng_z == words[2 * n + i]
            &&& hit.u == words[3 * n + i]
            &&& hit.v == words[4 * n + i]
            &&& hit.primID == words[5 * n + i]
            &&& hit.geomID == words[6 * n + i]
            &&& hit.instID[0] == words[7 * n + i]
        }),
{
    assert(hit.as_lane().prim_id == hit.primID);
}

/// Hits and far ends are scattered to the columns of their lane; every other word stays
/// as it is.
pub proof fn lemma_lanes_are_scattered_to_their_columns(
    rays: &mut RayN<'_>,
    hits: &mut HitN<'_>,
    i: usize,
    tfar: Real,
    hit: &Hit,
    w: int,
)
    requires
        old(rays).wf(),
        old(hits).wf(),
        i < old(rays).len,
        i < old(hits).len,
    ensures
        call_ensures(RayN::<'_>::set_tfar_unchecked, (rays, i, tfar), ()) ==> {
            let n = old(rays).len;
            &&& final(rays).words@[8 * n + i] == tfar
            &&& 0 <= w < 12 * n && w != 8 * n + i ==> final(rays).words@[w] == old(rays).words@[w]
        },
        call_ensures(HitN::<'_>::scatter_unchecked, (hits, i, hit), ()) ==> {
            let n = old(hits).len;
            &&& final(hits).words@[i as int] == hit.Ng_x
            &&& final(hits).words@[n + i] == hit.Ng_y
            &&& final(hits).words@[2 * n + i] == hit.Ng_z
            &&& final(hits).words@[3 * n + i] == hit.u
            &&& final(hits).words@[4 * n + i] == hit.v
            &&& final(hits).words@[5 * n + i] == hit.primID
            &&& final(hits).words@[6 * n + i] == hit.geomID
            &&& final(hits).words@[7 * n + i] == hit.instID[0]
            &&& 0 <= w < 8 * n && w % n as int != i ==> final(hits).words@[w] == old(
                hits,
            ).words@[w]
        },
{
    let n = old(hits).len as int;
    assert forall|c: int| 0 <= c < 8 implies #[trigger] (c * n + i) % n == i by {
        vstd::arithmetic::div_mod::lemma_mod_multiples_vanish(c, i as int, n);
        vstd::arithmetic::div_mod::lemma_small_mod(i as nat, n as nat);
        assert(n * c + i == c * n + i) by (nonlinear_arith);
    }
    assert((0 * n + i) % n == i && (1 * n + i) % n == i);
    assert((2 * n + i) % n == i && (3 * n + i) % n == i);
    assert((4 * n + i) % n == i && (5 * n + i) % n == i);
    assert((6 * n + i) % n == i && (7 * n + i) % n == i);
}

/// The rays of a packet of rays and hits are its first 12 columns, the hits the 8 that
/// follow.
pub proof fn lemma_rays_come_before_hits(p: &mut RayHitN<'_>, r: RayN<'_>, h: HitN<'_>, i: int)
    requires
        old(p).wf(),
        0 <= i < old(p).len,
    ensures
        call_ensures(RayHitN::<'_>::ray_n, (p,), r) ==> {
            &&& r.lanes() == old(p).len
            &&& r.lane(i).org_x == old(p).words@[i]
            &&& r.lane(i).flags == old(p).words@[11 * old(p).len + i]
        },
        call_ensures(RayHitN::<'_>::hit_n, (p,), h) ==> {
            &&& h.lanes() == old(p).len
            &&& h.lane(i).ng_x == old(p).words@[12 * old(p).len + i]
            &&& h.lane(i).prim_id == old(p).words@[17 * old(p).len + i]
            &&& h.lane(i).geom_id == old(p).words@[18 * old(p).len + i]
            &&& h.lane(i).inst_id == old(p).words@[19 * old(p).len + i]
        },
        call_ensures(RayHitN::<'_>::split, (p,), (r, h)) ==> {
            &&& r.lane(i).org_x == old(p).words@[i]
            &&& r.lane(i).flags == old(p).words@[11 * old(p).len + i]
            &&& h.lane(i).ng_x == old(p).words@[12 * old(p).len + i]
            &&& h.lane(i).prim_id == old(p).words@[17 * old(p).len + i]
            &&& h.lane(i).geom_id == old(p).words@[18 * old(p).len + i]
            &&& h.lane(i).inst_id == old(p).words@[19 * old(p).len + i]
        },
{
}

/// A packet starts as rays of zero origin and direction, or as lanes without a hit; its
/// rays and its hits are walked side by side, from the first of four lanes to the last.
pub proof fn lemma_packets_start_empty<const N: usize>(
    rays: RaySoA<N>,
    hits: HitSoA<N>,
    i: int,
    ray: Ray4,
    pair: RayHit4,
    both: RayHit4Iter<'_>,
    it: &mut RayHit4Iter<'_>,
    next: Option<(SoARayRef<'_, Ray4>, SoAHitRef<'_, Hit4>)>,
)
    requires
        call_ensures(<RaySoA<N> as Default>::default, (), rays),
        call_ensures(<HitSoA<N> as Default>::default, (), hits),
        call_ensures(RayHit4::new, (ray,), pair),
        call_ensures(RayHit4::iter, (&pair,), both),
        call_ensures(RayHit4Iter::<'_>::next, (it,), next),
        0 <= i < N,
    ensures
        rays.org_x[i] == 0 && rays.org_y[i] == 0 && rays.org_z[i] == 0,
        rays.dir_x[i] == 0 && rays.dir_y[i] == 0 && rays.dir_z[i] == 0,
        rays.tnear[i] == 0 && rays.tfar[i] == 0x7f80_0000u32 && rays.mask[i] == 0xffff_ffffu32,
        hits.geomID[i] == 0xffff_ffffu32 && hits.primID[i] == 0xffff_ffffu32,
        pair.ray == ray,
        i < 4 ==> pair.hit.geomID[i] == 0xffff_ffffu32,
        both.rays.packet == &pair.ray && both.hits.packet == &pair.hit && both.rays.cur == 0,
        next is Some <==> old(it).rays.cur < 4,
        next matches Some((r, h)) ==> {
            &&& r.idx == old(it).rays.cur && h.idx == r.idx
            &&& r.packet == old(it).rays.packet && h.packet == old(it).hits.packet
            &&& final(it).rays.cur == old(it).rays.cur + 1
        },
{
    assert(rays.lane(i).org_x == rays.org_x[i]);
    assert(hits.lane(i).geom_id == hits.geomID[i]);
    if i < 4 {
        assert(pair.hit.lane(i).geom_id == pair.hit.geomID[i]);
    }
}

/// A packet type is as wide as its packets have lanes, a single ray or hit as one; rays
/// and hits that go together are of one width.
pub proof fn lemma_packets_are_as_wide_as_named(
    r4: Ray4,
    r8: Ray8,
    r16: Ray16,
    h4: Hit4,
    h8: Hit8,
    h16: Hit16,
)
    ensures
        r4.lanes() == <Ray4 as RayPacket>::LEN && h4.lanes() == <Hit4 as HitPacket>::LEN,
        r8.lanes() == <Ray8 as RayPacket>::LEN && h8.lanes() == <Hit8 as HitPacket>::LEN,
        r16.lanes() == <Ray16 as RayPacket>::LEN && h16.lanes() == <Hit16 as HitPacket>::LEN,
        r4.lanes() == 4 && r8.lanes() == 8 && r16.lanes() == 16,
        h4.lanes() == 4 && h8.lanes() == 8 && h16.lanes() == 16,
        <Ray as RayPacket>::LEN == 1 && <Hit as HitPacket>::LEN == 1,
        <RayHit as RayHitPacket>::LEN == 1,
        <RayHit4 as RayHitPacket>::LEN == r4.lanes(),
        <RayHit8 as RayHitPacket>::LEN == r8.lanes(),
        <RayHit16 as RayHitPacket>::LEN == r16.lanes(),
{
}

} // verus!
