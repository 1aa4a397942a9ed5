//! The callbacks of a geometry: which closure and which user data each slot
//! holds, and how a native callback finds them.

use vstd::prelude::*;

use crate::args::{IntersectFunctionNArgs, OccludedFunctionNArgs, UserData, ValidityN};
use crate::context::AsIntersectContext;
use crate::ray::packet::{HitN, RayN, HIT_WORDS, RAY_WORDS};
use crate::ray::{SoAHit, SoARay};
use crate::sys::Real;
use crate::transform::Bounds;

verus! {

/// Identifies one of a geometry's callback slots.
#[derive(Debug, Clone, Copy, PartialEq, Eq, Structural)]
pub enum CbKind {
    IntersectFilter,
    OccludedFilter,
    UserIntersect,
    UserOccluded,
    UserBounds,
    Displacement,
}

impl CbKind {
    /// Number of callback kinds.
    pub const COUNT: usize = 6;

    /// Position of the slot of this kind.
    pub open spec fn position(self) -> int {
        match self {
            CbKind::IntersectFilter => 0,
            CbKind::OccludedFilter => 1,
            CbKind::UserIntersect => 2,
            CbKind::UserOccluded => 3,
            CbKind::UserBounds => 4,
            CbKind::Displacement => 5,
        }
    }

    /// Executable form of [`position`](Self::position).
    pub fn index(self) -> (i: usize)
        ensures
            i == self.position(),
            i < CbKind::COUNT,
    {
        match self {
            CbKind::IntersectFilter => 0,
            CbKind::OccludedFilter => 1,
            CbKind::UserIntersect => 2,
            CbKind::UserOccluded => 3,
            CbKind::UserBounds => 4,
            CbKind::Displacement => 5,
        }
    }
}

/// The user data that goes with a callback.
#[derive(Debug)]
pub enum UserBinding<U> {
    /// None.
    Unbound,
    /// Data that the geometry owns.
    Owned(U),
    /// Data that the application keeps.
    Borrowed(U),
}

impl<U> UserBinding<U> {
    /// The data that the callback receives.
    pub open spec fn delivered(self) -> Option<U> {
        match self {
            UserBinding::Unbound => None,
            UserBinding::Owned(u) => Some(u),
            UserBinding::Borrowed(u) => Some(u),
        }
    }

    /// The data, if the geometry owns it.
    pub open spec fn owned(self) -> Option<U> {
        match self {
            UserBinding::Owned(u) => Some(u),
            _ => None,
        }
    }
}

/// One callback slot: the closure, and that callback's own data.
#[derive(Debug)]
pub struct Slot<F, U> {
    pub closure: Option<F>,
    pub user_data: UserBinding<U>,
}

impl<F, U> Slot<F, U> {
    /// A slot without a callback.
    pub open spec fn vacant() -> Slot<F, U> {
        Slot { closure: None, user_data: UserBinding::Unbound }
    }

    /// Executable form of [`vacant`](Self::vacant).
    pub fn empty() -> (s: Slot<F, U>)
        ensures
            s == Self::vacant(),
    {
        Slot { closure: None, user_data: UserBinding::Unbound }
    }
}

/// The callback slots of a geometry.
#[derive(Debug)]
pub struct CallSite<F, U> {
    slots: [Slot<F, U>; 6],
}

impl<F, U> CallSite<F, U> {
    /// What the slot of `kind` holds.
    pub closed spec fn slot(&self, kind: CbKind) -> Slot<F, U> {
        self.slots[kind.position()]
    }

    /// `self` is `pre` with the slot of `kind` set to `slot`.
    pub open spec fn is_update_of(&self, pre: &Self, kind: CbKind, slot: Slot<F, U>) -> bool {
        &&& self.slot(kind) == slot
        &&& forall|other: CbKind| other != kind ==> #[trigger] self.slot(other) == pre.slot(other)
    }

    /// No callback in any slot.
    pub fn empty() -> (c: CallSite<F, U>)
        ensures
            forall|kind: CbKind| #[trigger] c.slot(kind) == Slot::<F, U>::vacant(),
    {
        CallSite {
            slots: [
                Slot::empty(),
                Slot::empty(),
                Slot::empty(),
                Slot::empty(),
                Slot::empty(),
                Slot::empty(),
            ],
        }
    }

    /// Puts `slot` into the place of `kind` and returns what was there.
    pub fn replace(&mut self, kind: CbKind, slot: Slot<F, U>) -> (released: Slot<F, U>)
        ensures
            final(self).is_update_of(old(self), kind, slot),
            released == old(self).slot(kind),
    {
        let i: usize = kind.index();
        let mut s = slot;
        core::mem::swap(&mut self.slots[i], &mut s);
        proof {
            assert forall|other: CbKind| other != kind implies #[trigger] self.slot(other)
                == old(self).slot(other) by {
                assert(other.position() != kind.position());
            }
        }
        s
    }

    /// The closure of `kind` and the data it receives, or `None` if there is no
    /// callback of that kind.
    pub fn lookup(&self, kind: CbKind) -> (r: Option<(&F, Option<&U>)>)
        ensures
            match r {
                Some((closure, data)) => {
                    &&& self.slot(kind).closure == Some(*closure)
                    &&& data is Some == self.slot(kind).user_data.delivered() is Some
                    &&& data matches Some(u) ==> self.slot(kind).user_data.delivered() == Some(*u)
                },
                None => self.slot(kind).closure is None,
            },
    {
        let slot = &self.slots[kind.index()];
        match &slot.closure {
            None => None,
            Some(closure) => {
                let data: Option<&U> = match &slot.user_data {
                    UserBinding::Unbound => None,
                    UserBinding::Owned(u) => Some(u),
                    UserBinding::Borrowed(u) => Some(u),
                };
                Some((closure, data))
            },
        }
    }

    /// The *owned* data of `kind`. Borrowed data is not returned: the
    /// application has it already.
    pub fn callback_data(&self, kind: CbKind) -> (r: Option<&U>)
        ensures
            r is Some == self.slot(kind).user_data.owned() is Some,
            r matches Some(u) ==> self.slot(kind).user_data.owned() == Some(*u),
    {
        match &self.slots[kind.index()].user_data {
            UserBinding::Owned(u) => Some(u),
            _ => None,
        }
    }

    /// The owned data of `kind`, for writing. Its slot stays as it is otherwise,
    /// and so do the other slots.
    pub fn callback_data_mut(&mut self, kind: CbKind) -> (r: Option<&mut U>)
        ensures
            match r {
                Some(u) => {
                    &&& old(self).slot(kind).user_data == UserBinding::Owned(*u)
                    &&& final(self).is_update_of(
                        old(self),
                        kind,
                        (Slot {
                            closure: old(self).slot(kind).closure,
                            user_data: UserBinding::Owned(*final(u)),
                        }),
                    )
                },
                None => {
                    &&& old(self).slot(kind).user_data.owned() is None
                    &&& forall|k: CbKind| #[trigger] final(self).slot(k) == old(self).slot(k)
                },
            },
    {
        let i: usize = kind.index();
        proof {
            assert forall|other: CbKind| other != kind implies #[trigger] other.position()
                != kind.position() by {}
        }
        match &mut self.slots[i].user_data {
            UserBinding::Owned(u) => Some(u),
            _ => None,
        }
    }
}

/// Arguments of a native filter callback: `n` rays with a candidate hit each.
pub struct FilterFunctionNArguments<'a, C: AsIntersectContext> {
    pub valid: &'a mut [i32],
    pub context: &'a mut C,
    pub ray: &'a mut [u32],
    pub hit: &'a mut [u32],
    pub n: usize,
}

/// Arguments of a native user-intersect callback.
pub struct IntersectFunctionNArguments<'a, C: AsIntersectContext> {
    pub valid: &'a mut [i32],
    pub context: &'a mut C,
    pub rayhit: &'a mut [u32],
    pub n: usize,
    pub geom_id: u32,
    pub prim_id: u32,
}

/// Arguments of a native user-occluded callback.
pub struct OccludedFunctionNArguments<'a, C: AsIntersectContext> {
    pub valid: &'a mut [i32],
    pub context: &'a mut C,
    pub ray: &'a mut [u32],
    pub n: usize,
    pub geom_id: u32,
    pub prim_id: u32,
}

/// Arguments of a native bounds callback.
pub struct BoundsFunctionArguments<'a> {
    pub prim_id: u32,
    pub time_step: u32,
    pub bounds: &'a mut Bounds,
}

/// Arguments of a native displacement callback: `n` vertices.
pub struct DisplacementFunctionNArguments<'a> {
    pub geometry: usize,
    pub prim_id: u32,
    pub time_step: u32,
    pub vertices: Vertices<'a>,
}

/// A filter closure and what it is to be called with.
pub struct FilterCall<'a, F, U, C: AsIntersectContext> {
    pub closure: &'a F,
    pub rays: RayN<'a>,
    pub hits: HitN<'a>,
    pub valid: ValidityN<'a>,
    pub context: &'a mut C,
    pub user_data: Option<&'a U>,
}

/// A user-intersect closure and what it is to be called with.
pub struct IntersectCall<'a, F, U: UserData, C: AsIntersectContext> {
    pub closure: &'a F,
    pub args: IntersectFunctionNArgs<'a, C, U>,
}

/// A user-occluded closure and what it is to be called with.
pub struct OccludedCall<'a, F, U: UserData, C: AsIntersectContext> {
    pub closure: &'a F,
    pub args: OccludedFunctionNArgs<'a, C, U>,
}

/// A bounds closure and what it is to be called with.
pub struct BoundsCall<'a, F, U> {
    pub closure: &'a F,
    pub bounds: &'a mut Bounds,
    pub prim_id: u32,
    pub time_step: u32,
    pub user_data: Option<&'a U>,
}

/// A displacement closure and what it is to be called with.
pub struct DisplacementCall<'a, F, U> {
    pub closure: &'a F,
    pub geometry: usize,
    pub vertices: Vertices<'a>,
    pub prim_id: u32,
    pub time_step: u32,
    pub user_data: Option<&'a U>,
}

/// A closure and the data it receives are those that `slot` holds.
pub open spec fn is_bound<F, U>(slot: Slot<F, U>, closure: &F, user_data: Option<&U>) -> bool {
    &&& slot.closure == Some(*closure)
    &&& user_data is Some == slot.user_data.delivered() is Some
    &&& user_data matches Some(u) ==> slot.user_data.delivered() == Some(*u)
}

impl<'a, C: AsIntersectContext> FilterFunctionNArguments<'a, C> {
    /// The buffers hold `n` lanes.
    pub open spec fn wf(&self) -> bool {
        &&& self.valid@.len() == self.n
        &&& self.ray.len() == RAY_WORDS * self.n
        &&& self.hit.len() == HIT_WORDS * self.n
    }
}

impl<'a, C: AsIntersectContext> IntersectFunctionNArguments<'a, C> {
    /// The buffers hold `n` lanes.
    pub open spec fn wf(&self) -> bool {
        &&& self.valid@.len() == self.n
        &&& self.rayhit.len() == (RAY_WORDS + HIT_WORDS) * self.n
    }
}

impl<'a, C: AsIntersectContext> OccludedFunctionNArguments<'a, C> {
    /// The buffers hold `n` lanes.
    pub open spec fn wf(&self) -> bool {
        &&& self.valid@.len() == self.n
        &&& self.ray.len() == RAY_WORDS * self.n
    }
}

/// The filter callback in the slot of `kind` and what it is called with: the
/// native arguments, as packets. `None` if there is no callback of that kind.
fn filter_function<'a, F, U, C: AsIntersectContext>(
    site: &'a CallSite<F, U>,
    kind: CbKind,
    args: FilterFunctionNArguments<'a, C>,
) -> (r: Option<FilterCall<'a, F, U, C>>)
    ensures
        r is None <==> site.slot(kind).closure is None,
        r is None ==> {
            &&& final(args.ray)@ == old(args.ray)@
            &&& final(args.hit)@ == old(args.hit)@
            &&& final(args.valid)@ == old(args.valid)@
            &&& *final(args.context) == *old(args.context)
        },
        r matches Some(call) ==> {
            &&& is_bound(site.slot(kind), call.closure, call.user_data)
            &&& call.rays.words@ == old(args.ray)@
            &&& final(call.rays.words)@ == final(args.ray)@
            &&& call.rays.len == args.n
            &&& call.hits.words@ == old(args.hit)@
            &&& final(call.hits.words)@ == final(args.hit)@
            &&& call.hits.len == args.n
            &&& call.valid.lanes@ == old(args.valid)@
            &&& final(call.valid.lanes)@ == final(args.valid)@
            &&& *call.context == *old(args.context)
            &&& *final(call.context) == *final(args.context)
        },
{
    match site.lookup(kind) {
        None => None,
        Some((closure, user_data)) => Some(
            FilterCall {
                closure,
                rays: RayN { words: args.ray, len: args.n },
                hits: HitN { words: args.hit, len: args.n },
                valid: ValidityN { lanes: args.valid },
                context: args.context,
                user_data,
            },
        ),
    }
}

/// Entry of the native intersection filter callback: the closure to call and its
/// arguments, or `None` if no intersection filter is set.
pub fn intersect_filter_function<'a, F, U, C: AsIntersectContext>(
    site: &'a CallSite<F, U>,
    args: FilterFunctionNArguments<'a, C>,
) -> (r: Option<FilterCall<'a, F, U, C>>)
    requires
        args.wf(),
    ensures
        r is None <==> site.slot(CbKind::IntersectFilter).closure is None,
        r is None ==> {
            &&& final(args.ray)@ == old(args.ray)@
            &&& final(args.hit)@ == old(args.hit)@
            &&& final(args.valid)@ == old(args.valid)@
            &&& *final(args.context) == *old(args.context)
        },
        r matches Some(call) ==> {
            &&& is_bound(site.slot(CbKind::IntersectFilter), call.closure, call.user_data)
            &&& call.rays.wf()
            &&& call.hits.wf()
            &&& call.rays.words@ == old(args.ray)@
            &&& final(call.rays.words)@ == final(args.ray)@
            &&& call.rays.len == args.n
            &&& call.hits.words@ == old(args.hit)@
            &&& final(call.hits.words)@ == final(args.hit)@
            &&& call.hits.len == args.n
            &&& call.valid.lanes@ == old(args.valid)@
            &&& final(call.valid.lanes)@ == final(args.valid)@
            &&& *call.context == *old(args.context)
            &&& *final(call.context) == *final(args.context)
        },
{
    filter_function(site, CbKind::IntersectFilter, args)
}

/// Entry of the native occlusion filter callback: the closure to call and its
/// arguments, or `None` if no occlusion filter is set.
pub fn occluded_filter_function<'a, F, U, C: AsIntersectContext>(
    site: &'a CallSite<F, U>,
    args: FilterFunctionNArguments<'a, C>,
) -> (r: Option<FilterCall<'a, F, U, C>>)
    requires
        args.wf(),
    ensures
        r is None <==> site.slot(CbKind::OccludedFilter).closure is None,
        r is None ==> {
            &&& final(args.ray)@ == old(args.ray)@
            &&& final(args.hit)@ == old(args.hit)@
            &&& final(args.valid)@ == old(args.valid)@
            &&& *final(args.context) == *old(args.context)
        },
        r matches Some(call) ==> {
            &&& is_bound(site.slot(CbKind::OccludedFilter), call.closure, call.user_data)
            &&& call.rays.wf()
            &&& call.hits.wf()
            &&& call.rays.words@ == old(args.ray)@
            &&& final(call.rays.words)@ == final(args.ray)@
            &&& call.rays.len == args.n
            &&& call.hits.words@ == old(args.hit)@
            &&& final(call.hits.words)@ == final(args.hit)@
            &&& call.hits.len == args.n
            &&& call.valid.lanes@ == old(args.valid)@
            &&& final(call.valid.lanes)@ == final(args.valid)@
            &&& *call.context == *old(args.context)
            &&& *final(call.context) == *final(args.context)
        },
{
    filter_function(site, CbKind::OccludedFilter, args)
}

/// Entry of the native user-intersect callback: the closure to call and its
/// arguments, or `None` if no such callback is set.
pub fn intersect_function<'a, F, U: UserData, C: AsIntersectContext>(
    site: &'a CallSite<F, U>,
    args: IntersectFunctionNArguments<'a, C>,
) -> (r: Option<IntersectCall<'a, F, U, C>>)
    requires
        args.wf(),
    ensures
        r is None <==> site.slot(CbKind::UserIntersect).closure is None,
        r is None ==> {
            &&& final(args.rayhit)@ == old(args.rayhit)@
            &&& final(args.valid)@ == old(args.valid)@
            &&& *final(args.context) == *old(args.context)
        },
        r matches Some(call) ==> {
            &&& is_bound(site.slot(CbKind::UserIntersect), call.closure, call.args.user_data)
            &&& call.args.wf()
            &&& call.args.rayhit@ == old(args.rayhit)@
            &&& final(call.args.rayhit)@ == final(args.rayhit)@
            &&& call.args.n == args.n
            &&& call.args.valid_n.lanes@ == old(args.valid)@
            &&& final(call.args.valid_n.lanes)@ == final(args.valid)@
            &&& *call.args.context == *old(args.context)
            &&& *final(call.args.context) == *final(args.context)
            &&& call.args.geom_id == args.geom_id
            &&& call.args.prim_id == args.prim_id
        },
{
    match site.lookup(CbKind::UserIntersect) {
        None => None,
        Some((closure, user_data)) => Some(
            IntersectCall {
                closure,
                args: IntersectFunctionNArgs {
                    rayhit: args.rayhit,
                    n: args.n,
                    valid_n: ValidityN { lanes: args.valid },
                    context: args.context,
                    geom_id: args.geom_id,
                    prim_id: args.prim_id,
                    user_data,
                },
            },
        ),
    }
}

/// Entry of the native user-occluded callback: the closure to call and its
/// arguments, or `None` if no such callback is set.
pub fn occluded_function<'a, F, U: UserData, C: AsIntersectContext>(
    site: &'a CallSite<F, U>,
    args: OccludedFunctionNArguments<'a, C>,
) -> (r: Option<OccludedCall<'a, F, U, C>>)
    requires
        args.wf(),
    ensures
        r is None <==> site.slot(CbKind::UserOccluded).closure is None,
        r is None ==> {
            &&& final(args.ray)@ == old(args.ray)@
            &&& final(args.valid)@ == old(args.valid)@
            &&& *final(args.context) == *old(args.context)
        },
        r matches Some(call) ==> {
            &&& is_bound(site.slot(CbKind::UserOccluded), call.closure, call.args.user_data)
            &&& call.args.wf()
            &&& call.args.rays@ == old(args.ray)@
            &&& final(call.args.rays)@ == final(args.ray)@
            &&& call.args.n == args.n
            &&& call.args.valid_n.lanes@ == old(args.valid)@
            &&& final(call.args.valid_n.lanes)@ == final(args.valid)@
            &&& *call.args.context == *old(args.context)
            &&& *final(call.args.context) == *final(args.context)
            &&& call.args.geom_id == args.geom_id
            &&& call.args.prim_id == args.prim_id
        },
{
    match site.lookup(CbKind::UserOccluded) {
        None => None,
        Some((closure, user_data)) => Some(
            OccludedCall {
                closure,
                args: OccludedFunctionNArgs {
                    rays: args.ray,
                    n: args.n,
                    valid_n: ValidityN { lanes: args.valid },
                    context: args.context,
                    geom_id: args.geom_id,
                    prim_id: args.prim_id,
                    user_data,
                },
            },
        ),
    }
}

/// Entry of the native bounds callback: the closure to call and its arguments,
/// or `None` if no such callback is set.
pub fn bounds_function<'a, F, U>(
    site: &'a CallSite<F, U>,
    args: BoundsFunctionArguments<'a>,
) -> (r: Option<BoundsCall<'a, F, U>>)
    ensures
        r is None <==> site.slot(CbKind::UserBounds).closure is None,
        r is None ==> *final(args.bounds) == *old(args.bounds),
        r matches Some(call) ==> {
            &&& is_bound(site.slot(CbKind::UserBounds), call.closure, call.user_data)
            &&& *call.bounds == *old(args.bounds)
            &&& *final(call.bounds) == *final(args.bounds)
            &&& call.prim_id == args.prim_id
            &&& call.time_step == args.time_step
        },
{
    match site.lookup(CbKind::UserBounds) {
        None => None,
        Some((closure, user_data)) => Some(
            BoundsCall {
                closure,
                bounds: args.bounds,
                prim_id: args.prim_id,
                time_step: args.time_step,
                user_data,
            },
        ),
    }
}

/// Entry of the native displacement callback: the closure to call and its
/// arguments, or `None` if no such callback is set.
pub fn displacement_function<'a, F, U>(
    site: &'a CallSite<F, U>,
    args: DisplacementFunctionNArguments<'a>,
) -> (r: Option<DisplacementCall<'a, F, U>>)
    ensures
        r is None <==> site.slot(CbKind::Displacement).closure is None,
        r is None ==> {
            &&& final(args.vertices.p_x)@ == old(args.vertices.p_x)@
            &&& final(args.vertices.p_y)@ == old(args.vertices.p_y)@
            &&& final(args.vertices.p_z)@ == old(args.vertices.p_z)@
        },
        r matches Some(call) ==> {
            &&& is_bound(site.slot(CbKind::Displacement), call.closure, call.user_data)
            &&& call.geometry == args.geometry
            &&& call.vertices == args.vertices
            &&& call.prim_id == args.prim_id
            &&& call.time_step == args.time_step
        },
{
    match site.lookup(CbKind::Displacement) {
        None => None,
        Some((closure, user_data)) => Some(
            DisplacementCall {
                closure,
                geometry: args.geometry,
                vertices: args.vertices,
                prim_id: args.prim_id,
                time_step: args.time_step,
                user_data,
            },
        ),
    }
}

/// A set of vertices in structure-of-arrays layout: where they are, their
/// normals, and the points to displace.
pub struct Vertices<'a> {
    /// The u coordinates of points to displace.
    pub u: &'a [Real],
    /// The v coordinates of points to displace.
    pub v: &'a [Real],
    /// The x components of the normals.
    pub ng_x: &'a [Real],
    /// The y components of the normals.
    pub ng_y: &'a [Real],
    /// The z components of the normals.
    pub ng_z: &'a [Real],
    /// The x components of points to displace.
    pub p_x: &'a mut [Real],
    /// The y components of points to displace.
    pub p_y: &'a mut [Real],
    /// The z components of points to displace.
    pub p_z: &'a mut [Real],
    /// The number of vertices.
    pub len: usize,
}

/// One vertex: its coordinates, its normal, and its point for writing.
pub struct Vertex<'b> {
    pub uv: [Real; 2],
    pub ng: [Real; 3],
    pub p_x: &'b mut Real,
    pub p_y: &'b mut Real,
    pub p_z: &'b mut Real,
}

/// Hands out the vertices of a [`Vertices`] in order.
pub struct VerticesIterMut<'a> {
    pub inner: Vertices<'a>,
    pub cur: usize,
}

impl<'a> Vertices<'a> {
    /// Every array has one entry per vertex.
    pub open spec fn wf(&self) -> bool {
        &&& self.u@.len() == self.len
        &&& self.v@.len() == self.len
        &&& self.ng_x@.len() == self.len
        &&& self.ng_y@.len() == self.len
        &&& self.ng_z@.len() == self.len
        &&& self.p_x@.len() == self.len
        &&& self.p_y@.len() == self.len
        &&& self.p_z@.len() == self.len
    }

    /// Hands out the vertices in order.
    pub fn into_iter_mut(self) -> (it: VerticesIterMut<'a>)
        ensures
            it.inner == self,
            it.cur == 0,
    {
        VerticesIterMut { inner: self, cur: 0 }
    }
}

impl<'a> VerticesIterMut<'a> {
    /// The arrays match, and the next vertex is none beyond the last.
    pub open spec fn wf(&self) -> bool {
        self.inner.wf() && self.cur <= self.inner.len
    }

    /// The next vertex, or `None` once all have been handed out. What is written
    /// to its point becomes the point of that vertex; all else stays.
    pub fn next(&mut self) -> (r: Option<Vertex<'_>>)
        requires
            old(self).wf(),
        ensures
            final(self).wf(),
            final(self).inner.len == old(self).inner.len,
            final(self).inner.u == old(self).inner.u,
            final(self).inner.v == old(self).inner.v,
            final(self).inner.ng_x == old(self).inner.ng_x,
            final(self).inner.ng_y == old(self).inner.ng_y,
            final(self).inner.ng_z == old(self).inner.ng_z,
            final(final(self).inner.p_x)@ == final(old(self).inner.p_x)@,
            final(final(self).inner.p_y)@ == final(old(self).inner.p_y)@,
            final(final(self).inner.p_z)@ == final(old(self).inner.p_z)@,
            match r {
                Some(x) => {
                    let i = old(self).cur as int;
                    &&& i < old(self).inner.len
                    &&& final(self).cur == i + 1
                    &&& x.uv@ == seq![old(self).inner.u@[i], old(self).inner.v@[i]]
                    &&& x.ng@ == seq![
                        old(self).inner.ng_x@[i],
                        old(self).inner.ng_y@[i],
                        old(self).inner.ng_z@[i],
                    ]
                    &&& *x.p_x == old(self).inner.p_x@[i]
                    &&& *x.p_y == old(self).inner.p_y@[i]
                    &&& *x.p_z == old(self).inner.p_z@[i]
                    &&& final(self).inner.p_x@ == old(self).inner.p_x@.update(i, *final(x.p_x))
                    &&& final(self).inner.p_y@ == old(self).inner.p_y@.update(i, *final(x.p_y))
                    &&& final(self).inner.p_z@ == old(self).inner.p_z@.update(i, *final(x.p_z))
                },
                None => {
                    &&& old(self).cur == old(self).inner.len
                    &&& final(self).cur == old(self).cur
                    &&& final(self).inner.p_x@ == old(self).inner.p_x@
                    &&& final(self).inner.p_y@ == old(self).inner.p_y@
                    &&& final(self).inner.p_z@ == old(self).inner.p_z@
                },
            },
    {
        if self.cur < self.inner.len {
            let i: usize = self.cur;
            self.cur = self.cur + 1;
            Some(
                Vertex {
                    uv: [self.inner.u[i], self.inner.v[i]],
                    ng: [self.inner.ng_x[i], self.inner.ng_y[i], self.inner.ng_z[i]],
                    p_x: &mut self.inner.p_x[i],
                    p_y: &mut self.inner.p_y[i],
                    p_z: &mut self.inner.p_z[i],
                },
            )
        } else {
            None
        }
    }

    /// Number of vertices still to come.
    pub fn len(&self) -> (n: usize)
        requires
            self.wf(),
        ensures
            n == self.inner.len - self.cur,
    {
        self.inner.len - self.cur
    }
}

/// The slots are numbered in the order in which the kinds are declared, and each has
/// a place of its own.
pub proof fn lemma_slots_are_in_order()
    ensures
        CbKind::IntersectFilter.position() == 0,
        CbKind::OccludedFilter.position() == CbKind::IntersectFilter.position() + 1,
        CbKind::UserIntersect.position() == CbKind::OccludedFilter.position() + 1,
        CbKind::UserOccluded.position() == CbKind::UserIntersect.position() + 1,
        CbKind::UserBounds.position() == CbKind::UserOccluded.position() + 1,
        CbKind::Displacement.position() == CbKind::UserBounds.position() + 1,
        CbKind::COUNT == CbKind::Displacement.position() + 1,
{
}

/// A callback receives the data that was bound with it, owned or borrowed; only owned
/// data belongs to the geometry, and nothing is delivered where nothing was bound.
pub proof fn lemma_callbacks_receive_what_was_bound<F, U>(f: F, data: U, c: F, d: Option<&U>)
    ensures
        UserBinding::Owned(data).delivered() == Some(data),
        UserBinding::Borrowed(data).delivered() == Some(data),
        UserBinding::<U>::Unbound.delivered() is None,
        UserBinding::Owned(data).owned() == Some(data),
        UserBinding::Borrowed(data).owned() is None,
        UserBinding::<U>::Unbound.owned() is None,
        Slot::<F, U>::vacant().closure is None,
        Slot::<F, U>::vacant().user_data is Unbound,
        is_bound(Slot { closure: Some(f), user_data: UserBinding::Owned(data) }, &c, d)
            <==> c == f && d is Some && *d->Some_0 == data,
        is_bound(Slot { closure: Some(f), user_data: UserBinding::Borrowed(data) }, &c, d)
            <==> c == f && d is Some && *d->Some_0 == data,
        is_bound(Slot::<F, U> { closure: Some(f), user_data: UserBinding::Unbound }, &c, d)
            <==> c == f && d is None,
        !is_bound(Slot::<F, U>::vacant(), &c, d),
{
}

/// Setting a slot changes that slot and no other.
pub proof fn lemma_slots_are_set_apart<F, U>(
    pre: CallSite<F, U>,
    post: CallSite<F, U>,
    kind: CbKind,
    other: CbKind,
    slot: Slot<F, U>,
)
    requires
        post.is_update_of(&pre, kind, slot),
    ensures
        post.slot(other) == (if other == kind {
            slot
        } else {
            pre.slot(other)
        }),
{
}

/// A native packet of `n` lanes has 12 words for each ray and 8 for each hit, and one
/// mask for each lane.
pub proof fn lemma_native_packets_have_their_size<C: AsIntersectContext>(
    filter: FilterFunctionNArguments<'_, C>,
    intersect: IntersectFunctionNArguments<'_, C>,
    occluded: OccludedFunctionNArguments<'_, C>,
)
    ensures
        filter.wf() <==> {
            &&& old(filter.valid)@.len() == filter.n
            &&& old(filter.ray)@.len() == 12 * filter.n
            &&& old(filter.hit)@.len() == 8 * filter.n
        },
        intersect.wf() <==> {
            &&& old(intersect.valid)@.len() == intersect.n
            &&& old(intersect.rayhit)@.len() == 20 * intersect.n
        },
        occluded.wf() <==> {
            &&& old(occluded.valid)@.len() == occluded.n
            &&& old(occluded.ray)@.len() == 12 * occluded.n
        },
{
}

/// A slot that is replaced hands back what was in it and leaves the others; a callback is
/// called with the data it was bound with, and only data it owns is lent out.
pub proof fn lemma_slots_keep_what_they_are_given<F, U>(
    site: &mut CallSite<F, U>,
    kind: CbKind,
    other: CbKind,
    slot: Slot<F, U>,
    released: Slot<F, U>,
    found: Option<(&F, Option<&U>)>,
    data: Option<&U>,
    i: usize,
    j: usize,
)
    requires
        other != kind,
        call_ensures(CbKind::index, (kind,), i),
        call_ensures(CbKind::index, (other,), j),
    ensures
        i < 6 && j < 6 && i != j,
        call_ensures(CallSite::<F, U>::replace, (site, kind, slot), released) ==> {
            &&& final(site).slot(kind) == slot
            &&& final(site).slot(other) == old(site).slot(other)
            &&& released == old(site).slot(kind)
        },
        call_ensures(CallSite::<F, U>::lookup, (old(site), kind), found) ==> {
            let bound = old(site).slot(kind);
            &&& found is Some <==> bound.closure is Some
            &&& found matches Some((closure, _)) ==> Some(*closure) == bound.closure
            &&& found matches Some((_, u)) ==> match bound.user_data {
                UserBinding::Unbound => u is None,
                UserBinding::Owned(x) => u is Some && *u->Some_0 == x,
                UserBinding::Borrowed(x) => u is Some && *u->Some_0 == x,
            }
        },
        call_ensures(CallSite::<F, U>::callback_data, (old(site), kind), data) ==> match old(
            site,
        ).slot(kind).user_data {
            UserBinding::Owned(x) => data is Some && *data->Some_0 == x,
            _ => data is None,
        },
{
}

/// The native library calls the callback of the slot that it asks for, on the packet it
/// hands over, with the IDs it gives; without one nothing is called.
pub proof fn lemma_native_calls_reach_their_slots<'a, F, U: UserData, C: AsIntersectContext>(
    site: &'a CallSite<F, U>,
    filter: FilterFunctionNArguments<'a, C>,
    fi: Option<FilterCall<'a, F, U, C>>,
    fo: Option<FilterCall<'a, F, U, C>>,
    hit: IntersectFunctionNArguments<'a, C>,
    i: Option<IntersectCall<'a, F, U, C>>,
    shadow: OccludedFunctionNArguments<'a, C>,
    o: Option<OccludedCall<'a, F, U, C>>,
    extent: BoundsFunctionArguments<'a>,
    b: Option<BoundsCall<'a, F, U>>,
    shape: DisplacementFunctionNArguments<'a>,
    d: Option<DisplacementCall<'a, F, U>>,
)
    ensures
        call_ensures(intersect_filter_function::<F, U, C>, (site, filter), fi) ==> {
            &&& fi is Some <==> site.slot(CbKind::IntersectFilter).closure is Some
            &&& fi matches Some(call) ==> {
                &&& Some(*call.closure) == site.slot(CbKind::IntersectFilter).closure
                &&& call.rays.words@ == old(filter.ray)@ && call.rays.len == filter.n
                &&& call.hits.words@ == old(filter.hit)@ && call.hits.len == filter.n
                &&& call.valid.lanes@ == old(filter.valid)@
            }
        },
        call_ensures(occluded_filter_function::<F, U, C>, (site, filter), fo) ==> {
            &&& fo is Some <==> site.slot(CbKind::OccludedFilter).closure is Some
            &&& fo matches Some(call) ==> {
                &&& Some(*call.closure) == site.slot(CbKind::OccludedFilter).closure
                &&& call.rays.words@ == old(filter.ray)@ && call.rays.len == filter.n
                &&& call.hits.words@ == old(filter.hit)@ && call.hits.len == filter.n
                &&& call.valid.lanes@ == old(filter.valid)@
            }
        },
        call_ensures(intersect_function::<F, U, C>, (site, hit), i) ==> {
            &&& i is Some <==> site.slot(CbKind::UserIntersect).closure is Some
            &&& i matches Some(call) ==> {
                &&& Some(*call.closure) == site.slot(CbKind::UserIntersect).closure
                &&& call.args.rayhit@ == old(hit.rayhit)@ && call.args.n == hit.n
                &&& call.args.valid_n.lanes@ == old(hit.valid)@
                &&& call.args.geom_id == hit.geom_id
                &&& call.args.prim_id == hit.prim_id
            }
        },
        call_ensures(occluded_function::<F, U, C>, (site, shadow), o) ==> {
            &&& o is Some <==> site.slot(CbKind::UserOccluded).closure is Some
            &&& o matches Some(call) ==> {
                &&& Some(*call.closure) == site.slot(CbKind::UserOccluded).closure
                &&& call.args.rays@ == old(shadow.ray)@ && call.args.n == shadow.n
                &&& call.args.valid_n.lanes@ == old(shadow.valid)@
                &&& call.args.geom_id == shadow.geom_id
                &&& call.args.prim_id == shadow.prim_id
            }
        },
        call_ensures(bounds_function::<F, U>, (site, extent), b) ==> {
            &&& b is Some <==> site.slot(CbKind::UserBounds).closure is Some
            &&& b matches Some(call) ==> {
                &&& Some(*call.closure) == site.slot(CbKind::UserBounds).closure
                &&& *call.bounds == *old(extent.bounds)
                &&& call.prim_id == extent.prim_id
                &&& call.time_step == extent.time_step
            }
        },
        call_ensures(displacement_function::<F, U>, (site, shape), d) ==> {
            &&& d is Some <==> site.slot(CbKind::Displacement).closure is Some
            &&& d matches Some(call) ==> {
                &&& Some(*call.closure) == site.slot(CbKind::Displacement).closure
                &&& call.geometry == shape.geometry
                &&& call.vertices == shape.vertices
                &&& call.prim_id == shape.prim_id
                &&& call.time_step == shape.time_step
            }
        },
{
}

/// The vertices of a displacement are walked one by one, each with its own coordinates
/// and normal, and with its own position to be moved.
pub proof fn lemma_vertices_are_walked_in_order(
    it: &mut VerticesIterMut<'_>,
    r: Option<Vertex<'_>>,
    left: usize,
)
    requires
        old(it).wf(),
    ensures
        call_ensures(VerticesIterMut::<'_>::len, (old(it),), left) ==> left == old(it).inner.len
            - old(it).cur,
        call_ensures(VerticesIterMut::<'_>::next, (it,), r) ==> {
            let i = old(it).cur as int;
            &&& r is Some <==> i < old(it).inner.len
            &&& r matches Some(x) ==> {
                &&& x.uv[0] == old(it).inner.u@[i] && x.uv[1] == old(it).inner.v@[i]
                &&& x.ng[0] == old(it).inner.ng_x@[i] && x.ng[1] == old(it).inner.ng_y@[i]
                &&& x.ng[2] == old(it).inner.ng_z@[i]
                &&& *x.p_x == old(it).inner.p_x@[i]
                &&& *x.p_y == old(it).inner.p_y@[i]
                &&& *x.p_z == old(it).inner.p_z@[i]
                &&& final(it).cur == i + 1
            }
            &&& r is None ==> final(it).cur == i
        },
{
    if r is Some {
        let x = r->Some_0;
        assert(x.uv[0] == x.uv@[0] && x.uv[1] == x.uv@[1]);
        assert(x.ng[0] == x.ng@[0] && x.ng[1] == x.ng@[1] && x.ng[2] == x.ng@[2]);
    }
}

/// Owned data is changed where it is kept: the closure of the slot stays, and so do the
/// other slots. Data that is not owned is not lent out.
pub proof fn lemma_owned_data_is_changed_in_place<F, U>(
    site: &mut CallSite<F, U>,
    kind: CbKind,
    other: CbKind,
    r: Option<&mut U>,
)
    requires
        call_ensures(CallSite::<F, U>::callback_data_mut, (site, kind), r),
        other != kind,
    ensures
        r is Some <==> old(site).slot(kind).user_data is Owned,
        r matches Some(u) ==> {
            &&& old(site).slot(kind).user_data == UserBinding::Owned(*u)
            &&& final(site).slot(kind).user_data == UserBinding::Owned(*final(u))
        },
        final(site).slot(kind).closure == old(site).slot(kind).closure,
        final(site).slot(other) == old(site).slot(other),
        r is None ==> final(site).slot(kind) == old(site).slot(kind),
{
}

} // verus!
