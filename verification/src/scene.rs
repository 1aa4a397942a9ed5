//! Scenes: which geometries are attached, and the queries they answer.

use std::collections::HashMap;

use vstd::prelude::*;

use crate::call::NativeCall;
use crate::geometry::{
    release_calls, with_released, with_retained, Committed, Geometry, GeometryShared,
    GeometryStore,
};
use crate::mask::{native_mask, ValidMaskN};
use crate::ray::packet::{RayHitPacket, RayPacket};
use crate::ray::Ray;
use crate::sys::{
    BufferUsage, BuildQuality, Device, Error, Format, GeometryKind, Real, REAL_NEG_INFINITY,
};
use crate::transform::{zero_bounds, Bounds, LinearBounds};

verus! {

/// A scene containing various geometries. `P` is the type of its progress
/// callback.
///
/// The scene keeps a handle of every geometry attached to it, so that no
/// attached geometry can be edited.
#[derive(Debug)]
pub struct Scene<P> {
    handle: usize,
    device: Device,
    progress_monitor_fn: Option<P>,
    geometries: HashMap<u32, Geometry>,
}

impl<P> View for Scene<P> {
    type V = Map<u32, Geometry>;

    /// The attached geometries, by ID.
    closed spec fn view(&self) -> Map<u32, Geometry> {
        self.geometries@
    }
}

/// The state of the store after a geometry was attached in the place of
/// `displaced`.
pub open spec fn with_attached<'buf, F, U>(
    m: Map<u64, Committed<'buf, F, U>>,
    geometry: Geometry,
    displaced: Option<Geometry>,
) -> Map<u64, Committed<'buf, F, U>> {
    let retained = with_retained(m, geometry.ident());
    match displaced {
        Some(g) => with_released(retained, g.ident()),
        None => retained,
    }
}

/// The native calls that are due when the handle of `displaced` goes away after
/// `geometry` was attached in its place.
pub open spec fn displaced_calls<F, U>(
    m: Map<u64, Committed<F, U>>,
    geometry: Geometry,
    displaced: Option<Geometry>,
) -> Seq<NativeCall> {
    match displaced {
        Some(g) => release_calls(with_retained(m, geometry.ident()), g.ident()),
        None => Seq::empty(),
    }
}

/// The store after the handles of `ids` went away one after the other.
pub open spec fn with_all_released<'buf, F, U>(
    m: Map<u64, Committed<'buf, F, U>>,
    attached: Map<u32, Geometry>,
    ids: Seq<u32>,
) -> Map<u64, Committed<'buf, F, U>>
    decreases ids.len(),
{
    if ids.len() == 0 {
        m
    } else {
        with_released(
            with_all_released(m, attached, ids.drop_last()),
            attached[ids.last()].ident(),
        )
    }
}

/// The native calls that are due when the handles of `ids` go away one after the
/// other.
pub open spec fn all_release_calls<'buf, F, U>(
    m: Map<u64, Committed<'buf, F, U>>,
    attached: Map<u32, Geometry>,
    ids: Seq<u32>,
) -> Seq<NativeCall>
    decreases ids.len(),
{
    if ids.len() == 0 {
        Seq::empty()
    } else {
        all_release_calls(m, attached, ids.drop_last()) + release_calls(
            with_all_released(m, attached, ids.drop_last()),
            attached[ids.last()].ident(),
        )
    }
}

impl<P> Scene<P> {
    /// The native handle of the scene.
    pub closed spec fn native(&self) -> usize {
        self.handle
    }

    /// The device of the scene.
    pub closed spec fn scene_device(&self) -> Device {
        self.device
    }

    /// The progress callback, if one is set.
    pub closed spec fn progress(&self) -> Option<P> {
        self.progress_monitor_fn
    }

    /// Nothing but the attached geometries differs from `pre`.
    pub open spec fn same_apart_from_geometries(&self, pre: &Self) -> bool {
        &&& self.native() == pre.native()
        &&& self.scene_device() == pre.scene_device()
        &&& self.progress() == pre.progress()
    }

    /// The native call that creates a scene.
    pub fn request(device: &Device) -> (call: NativeCall)
        ensures
            call == (NativeCall::NewScene { device: device.handle }),
    {
        NativeCall::NewScene { device: device.handle }
    }

    /// A new scene without geometries. `handle` is what the native call of
    /// [`request`](Self::request) returned, zero if it failed, and `error` the
    /// device's error code after it.
    pub fn new(device: Device, handle: usize, error: Error) -> (r: Result<Self, Error>)
        ensures
            match r {
                Ok(s) => {
                    &&& handle != 0
                    &&& s.native() == handle
                    &&& s.scene_device() == device
                    &&& s.progress() is None
                    &&& s@ == Map::<u32, Geometry>::empty()
                },
                Err(e) => handle == 0 && e == error,
            },
    {
        if handle == 0 {
            Err(error)
        } else {
            Ok(
                Scene { handle, device, progress_monitor_fn: None, geometries: HashMap::new() },
            )
        }
    }

    /// A new scene, and the native call that sets its flags.
    pub fn new_with_flags(device: Device, flags: u32, handle: usize, error: Error) -> (r: Result<
        (Self, NativeCall),
        Error,
    >)
        ensures
            match r {
                Ok((s, call)) => {
                    &&& handle != 0
                    &&& s.native() == handle
                    &&& s.scene_device() == device
                    &&& s.progress() is None
                    &&& s@ == Map::<u32, Geometry>::empty()
                    &&& call == (NativeCall::SetSceneFlags { scene: handle, flags })
                },
                Err(e) => handle == 0 && e == error,
            },
    {
        match Self::new(device, handle, error) {
            Ok(mut s) => {
                let call = s.set_flags(flags);
                Ok((s, call))
            },
            Err(e) => Err(e),
        }
    }

    /// The device of the scene.
    pub fn device(&self) -> (d: &Device)
        ensures
            *d == self.scene_device(),
    {
        &self.device
    }

    /// The native handle of the scene.
    pub fn handle(&self) -> (handle: usize)
        ensures
            handle == self.native(),
    {
        self.handle
    }

    /// The native call that attaches a geometry under an ID of the native
    /// library's choice.
    pub fn attach_request(&self, geometry: &Geometry) -> (call: NativeCall)
        ensures
            call == (NativeCall::AttachGeometry {
                scene: self.native(),
                geometry: geometry.native(),
            }),
    {
        NativeCall::AttachGeometry { scene: self.handle, geometry: geometry.handle() }
    }

    /// Records that a geometry is attached under `id`, which the native call of
    /// [`attach_request`](Self::attach_request) returned. The scene keeps a
    /// handle of the geometry; the native calls that are due are returned.
    pub fn attach_geometry<'buf, F, U>(
        &mut self,
        store: &mut GeometryStore<'buf, F, U>,
        geometry: &Geometry,
        id: u32,
    ) -> (calls: Vec<NativeCall>)
        requires
            old(store).wf(),
            old(store).has(geometry),
            old(store)@[geometry.ident()].owners < u64::MAX,
        ensures
            final(store).wf(),
            final(store).next() == old(store).next(),
            final(store)@ == with_attached(old(store)@, *geometry, old(self)@.get(id)),
            final(store).has(geometry),
            final(self)@ == old(self)@.insert(id, *geometry),
            final(self).same_apart_from_geometries(old(self)),
            calls@ == displaced_calls(old(store)@, *geometry, old(self)@.get(id)),
    {
        broadcast use vstd::std_specs::hash::group_hash_axioms;

        let handle = geometry.retain(store);
        match self.geometries.insert(id, handle) {
            Some(displaced) => displaced.release(store),
            None => Vec::new(),
        }
    }

    /// Attaches a geometry under the given ID, which must be unused in the scene:
    /// on an ID that is in use the native call fails, and the scene keeps what it
    /// has. Returns the native call to make.
    pub fn attach_geometry_by_id<'buf, F, U>(
        &mut self,
        store: &mut GeometryStore<'buf, F, U>,
        geometry: &Geometry,
        id: u32,
    ) -> (calls: Vec<NativeCall>)
        requires
            old(store).wf(),
            old(store).has(geometry),
            !old(self)@.contains_key(id) ==> old(store)@[geometry.ident()].owners < u64::MAX,
        ensures
            final(store).wf(),
            final(store).next() == old(store).next(),
            final(store).has(geometry),
            if old(self)@.contains_key(id) {
                &&& final(self)@ == old(self)@
                &&& final(store)@ == old(store)@
            } else {
                &&& final(self)@ == old(self)@.insert(id, *geometry)
                &&& final(store)@ == with_attached(old(store)@, *geometry, None)
            },
            final(self).same_apart_from_geometries(old(self)),
            calls@ == seq![
                NativeCall::AttachGeometryByID {
                    scene: old(self).native(),
                    geometry: geometry.native(),
                    id,
                },
            ],
    {
        broadcast use vstd::std_specs::hash::group_hash_axioms;

        let mut calls: Vec<NativeCall> = Vec::new();
        calls.push(
            NativeCall::AttachGeometryByID {
                scene: self.handle,
                geometry: geometry.handle(),
                id,
            },
        );
        if self.geometries.contains_key(&id) {
            return calls;
        }
        let handle = geometry.retain(store);
        self.geometries.insert(id, handle);
        calls
    }

    /// Detaches the geometry with the given ID: the native call to make, and
    /// those that are due after it. The scene's handle goes away.
    pub fn detach_geometry<'buf, F, U>(
        &mut self,
        store: &mut GeometryStore<'buf, F, U>,
        id: u32,
    ) -> (calls: Vec<NativeCall>)
        requires
            old(store).wf(),
        ensures
            final(store).wf(),
            final(store).next() == old(store).next(),
            final(self)@ == old(self)@.remove(id),
            final(self).same_apart_from_geometries(old(self)),
            final(store)@ == (match old(self)@.get(id) {
                Some(g) => with_released(old(store)@, g.ident()),
                None => old(store)@,
            }),
            calls@ == seq![NativeCall::DetachGeometry { scene: old(self).native(), id }] + (
            match old(self)@.get(id) {
                Some(g) => release_calls(old(store)@, g.ident()),
                None => Seq::empty(),
            }),
    {
        broadcast use vstd::std_specs::hash::group_hash_axioms;

        let mut calls: Vec<NativeCall> = Vec::new();
        calls.push(NativeCall::DetachGeometry { scene: self.handle, id });
        match self.geometries.remove(&id) {
            Some(g) => {
                let mut due = g.release(store);
                calls.append(&mut due);
            },
            None => {},
        }
        assert(self@ =~= old(self)@.remove(id));
        calls
    }

    /// The scene's own handle of the geometry with the given ID.
    pub fn attached(&self, id: u32) -> (r: Option<&Geometry>)
        ensures
            match r {
                Some(g) => self@.get(id) == Some(*g),
                None => self@.get(id) is None,
            },
    {
        broadcast use vstd::std_specs::hash::group_hash_axioms;

        self.geometries.get(&id)
    }

    /// The native call that looks up the geometry with the given ID.
    pub fn get_geometry_unchecked_request(&self, id: u32) -> (call: NativeCall)
        ensures
            call == (NativeCall::GetGeometry { scene: self.native(), id }),
    {
        NativeCall::GetGeometry { scene: self.handle, id }
    }

    /// The native call that looks up the geometry with the given ID, safe beside
    /// other threads.
    pub fn get_geometry_request(&self, id: u32) -> (call: NativeCall)
        ensures
            call == (NativeCall::GetGeometryThreadSafe { scene: self.native(), id }),
    {
        NativeCall::GetGeometryThreadSafe { scene: self.handle, id }
    }

    /// A handle of the geometry with the given ID. `raw` is what the native call
    /// of [`get_geometry_request`](Self::get_geometry_request) returned.
    pub fn get_geometry<'buf, F, U>(
        &self,
        store: &mut GeometryStore<'buf, F, U>,
        id: u32,
        raw: usize,
    ) -> (r: Option<Geometry>)
        requires
            old(store).wf(),
            self.can_hand_out(old(store), id),
        ensures
            final(store).wf(),
            final(store).next() == old(store).next(),
            match self@.get(id) {
                Some(g) if raw != 0 => {
                    &&& r == Some(g)
                    &&& final(store)@ == with_retained(old(store)@, g.ident())
                },
                _ => r is None && final(store)@ == old(store)@,
            },
    {
        broadcast use vstd::std_specs::hash::group_hash_axioms;

        if raw == 0 {
            None
        } else {
            match self.geometries.get(&id) {
                Some(g) => Some(g.retain(store)),
                None => None,
            }
        }
    }

    /// As [`get_geometry`](Self::get_geometry). `raw` is what the native call of
    /// [`get_geometry_unchecked_request`](Self::get_geometry_unchecked_request)
    /// returned.
    pub fn get_geometry_unchecked<'buf, F, U>(
        &self,
        store: &mut GeometryStore<'buf, F, U>,
        id: u32,
        raw: usize,
    ) -> (r: Option<Geometry>)
        requires
            old(store).wf(),
            self.can_hand_out(old(store), id),
        ensures
            final(store).wf(),
            final(store).next() == old(store).next(),
            match self@.get(id) {
                Some(g) if raw != 0 => {
                    &&& r == Some(g)
                    &&& final(store)@ == with_retained(old(store)@, g.ident())
                },
                _ => r is None && final(store)@ == old(store)@,
            },
    {
        self.get_geometry(store, id, raw)
    }

    /// Whether a further handle of the geometry under `id`, if there is one, can
    /// be counted.
    pub open spec fn can_hand_out<'buf, F, U>(
        &self,
        store: &GeometryStore<'buf, F, U>,
        id: u32,
    ) -> bool {
        self@.contains_key(id) ==> store.has(&self@[id]) && store@[self@[id].ident()].owners
            < u64::MAX
    }

    /// Enables an attached geometry. Nothing is done if there is no geometry with
    /// that ID.
    pub fn enable_geometry(&mut self, id: u32) -> (call: Option<NativeCall>)
        ensures
            *final(self) == *old(self),
            call == (match old(self)@.get(id) {
                Some(g) => Some(NativeCall::EnableGeometry { geometry: g.native() }),
                None => None,
            }),
    {
        broadcast use vstd::std_specs::hash::group_hash_axioms;

        match self.geometries.get(&id) {
            Some(g) => Some(NativeCall::EnableGeometry { geometry: g.handle() }),
            None => None,
        }
    }

    /// Disables an attached geometry. Nothing is done if there is no geometry with
    /// that ID.
    pub fn disable_geometry(&mut self, id: u32) -> (call: Option<NativeCall>)
        ensures
            *final(self) == *old(self),
            call == (match old(self)@.get(id) {
                Some(g) => Some(NativeCall::DisableGeometry { geometry: g.native() }),
                None => None,
            }),
    {
        broadcast use vstd::std_specs::hash::group_hash_axioms;

        match self.geometries.get(&id) {
            Some(g) => Some(NativeCall::DisableGeometry { geometry: g.handle() }),
            None => None,
        }
    }

    /// Marks a buffer of an attached geometry as modified. Nothing is done if
    /// there is no geometry with
    /// that ID.
    pub fn update_geometry_buffer(
        &mut self,
        id: u32,
        usage: BufferUsage,
        slot: u32,
    ) -> (call: Option<NativeCall>)
        ensures
            *final(self) == *old(self),
            call == (match old(self)@.get(id) {
                Some(g) => Some(
                    NativeCall::UpdateGeometryBuffer { geometry: g.native(), usage, slot },
                ),
                None => None,
            }),
    {
        broadcast use vstd::std_specs::hash::group_hash_axioms;

        match self.geometries.get(&id) {
            Some(g) => Some(NativeCall::UpdateGeometryBuffer { geometry: g.handle(), usage, slot }),
            None => None,
        }
    }

    /// Commits an attached geometry. Nothing is done if there is no geometry with
    /// that ID.
    pub fn commit_geometry(&mut self, id: u32) -> (call: Option<NativeCall>)
        ensures
            *final(self) == *old(self),
            call == (match old(self)@.get(id) {
                Some(g) => Some(NativeCall::CommitGeometry { geometry: g.native() }),
                None => None,
            }),
    {
        broadcast use vstd::std_specs::hash::group_hash_axioms;

        match self.geometries.get(&id) {
            Some(g) => Some(NativeCall::CommitGeometry { geometry: g.handle() }),
            None => None,
        }
    }

    /// Sets the transformation of an attached instance geometry for a time step,
    /// as a 4x4 column-major matrix. Nothing is done if there is no geometry with
    /// that ID.
    pub fn set_geometry_transform(
        &mut self,
        id: u32,
        time_step: u32,
        transform: &[Real; 16],
    ) -> (call: Option<NativeCall>)
        ensures
            *final(self) == *old(self),
            call == (match old(self)@.get(id) {
                Some(g) => Some(
                    NativeCall::SetGeometryTransform {
                        geometry: g.native(),
                        time_step,
                        format: Format::FLOAT4X4_COLUMN_MAJOR,
                        matrix: *transform,
                    },
                ),
                None => None,
            }),
    {
        broadcast use vstd::std_specs::hash::group_hash_axioms;

        match self.geometries.get(&id) {
            Some(g) => Some(
                NativeCall::SetGeometryTransform {
                    geometry: g.handle(),
                    time_step,
                    format: Format::FLOAT4X4_COLUMN_MAJOR,
                    matrix: *transform,
                },
            ),
            None => None,
        }
    }

    /// The native call that locates the own storage of an attached geometry; an
    /// error if there is no such geometry, or if its slot holds no such storage.
    pub fn geometry_buffer_request<'buf, F, U>(
        &self,
        store: &GeometryStore<'buf, F, U>,
        id: u32,
        usage: BufferUsage,
        slot: u32,
    ) -> (r: Result<NativeCall, Error>)
        requires
            self@.contains_key(id) ==> store.has(&self@[id]),
        ensures
            r == (match self@.get(id) {
                Some(g) if store@[g.ident()].shared.local_size(usage, slot) is Some => Ok::<
                    NativeCall,
                    Error,
                >(NativeCall::GetGeometryBufferData { geometry: g.native(), usage, slot }),
                _ => Err(Error::INVALID_ARGUMENT),
            }),
    {
        broadcast use vstd::std_specs::hash::group_hash_axioms;

        match self.geometries.get(&id) {
            None => Err(Error::INVALID_ARGUMENT),
            Some(g) => match store.get(g.id()) {
                None => Err(Error::INVALID_ARGUMENT),
                Some(c) => c.shared.map_local_request(usage, slot),
            },
        }
    }

    /// Resolves the own storage of an attached geometry to its address and its
    /// number of elements of `T`, for writing. `address` is what the native call
    /// of [`geometry_buffer_request`](Self::geometry_buffer_request) returned.
    pub fn with_geometry_buffer_mut<'buf, F, U, T>(
        &mut self,
        store: &GeometryStore<'buf, F, U>,
        id: u32,
        usage: BufferUsage,
        slot: u32,
        address: usize,
    ) -> (r: Result<(usize, usize), Error>)
        requires
            old(self)@.contains_key(id) ==> store.has(&old(self)@[id]),
        ensures
            *final(self) == *old(self),
            match old(self)@.get(id) {
                None => r == Err::<(usize, usize), Error>(Error::INVALID_ARGUMENT),
                Some(g) => match store@[g.ident()].shared.local_size(usage, slot) {
                    Some(size) if GeometryShared::<'buf, F, U>::viewable::<T>(size, address) => r
                        matches Ok((a, n)) && a == address && n == size / vstd::layout::size_of::<
                        T,
                    >(),
                    _ => r == Err::<(usize, usize), Error>(Error::INVALID_ARGUMENT),
                },
            },
    {
        broadcast use vstd::std_specs::hash::group_hash_axioms;

        match self.geometries.get(&id) {
            None => Err(Error::INVALID_ARGUMENT),
            Some(g) => g.map_buffer::<F, U, T>(store, usage, slot, address),
        }
    }

    /// Commits all changes of the scene.
    pub fn commit(&mut self) -> (call: NativeCall)
        ensures
            *final(self) == *old(self),
            call == (NativeCall::CommitScene { scene: old(self).native() }),
    {
        NativeCall::CommitScene { scene: self.handle }
    }

    /// Joins a commit of the scene that another thread makes.
    pub fn join_commit(&self) -> (call: NativeCall)
        ensures
            call == (NativeCall::JoinCommitScene { scene: self.native() }),
    {
        NativeCall::JoinCommitScene { scene: self.handle }
    }

    /// Sets the flags of the scene.
    pub fn set_flags(&mut self, flags: u32) -> (call: NativeCall)
        ensures
            *final(self) == *old(self),
            call == (NativeCall::SetSceneFlags { scene: old(self).native(), flags }),
    {
        NativeCall::SetSceneFlags { scene: self.handle, flags }
    }

    /// Asks for the flags of the scene.
    pub fn get_flags(&self) -> (call: NativeCall)
        ensures
            call == (NativeCall::GetSceneFlags { scene: self.native() }),
    {
        NativeCall::GetSceneFlags { scene: self.handle }
    }

    /// Sets the build quality of the scene.
    pub fn set_build_quality(&mut self, quality: BuildQuality) -> (call: NativeCall)
        ensures
            *final(self) == *old(self),
            call == (NativeCall::SetSceneBuildQuality { scene: old(self).native(), quality }),
    {
        NativeCall::SetSceneBuildQuality { scene: self.handle, quality }
    }

    /// Asks for the primitives near a point.
    pub fn point_query(&self) -> (call: NativeCall)
        ensures
            call == (NativeCall::PointQuery { scene: self.native() }),
    {
        NativeCall::PointQuery { scene: self.handle }
    }

    /// Asks for the closest hit of a single ray.
    pub fn intersect(&self) -> (call: NativeCall)
        ensures
            call == (NativeCall::Intersect1 { scene: self.native() }),
    {
        NativeCall::Intersect1 { scene: self.handle }
    }

    /// Asks whether a single ray is occluded; see
    /// [`occluded_result`](Self::occluded_result).
    pub fn occluded(&self) -> (call: NativeCall)
        ensures
            call == (NativeCall::Occluded1 { scene: self.native() }),
    {
        NativeCall::Occluded1 { scene: self.handle }
    }

    /// Asks for the closest hits of a stream of `n` rays in structure-of-arrays
    /// layout.
    pub fn intersect_stream_soa(&self, n: usize) -> (call: NativeCall)
        ensures
            call == (NativeCall::IntersectNp { scene: self.native(), n: n as u32 }),
    {
        NativeCall::IntersectNp { scene: self.handle, n: n as u32 }
    }

    /// Asks whether the rays of a stream of `n` rays in structure-of-arrays layout
    /// are occluded.
    pub fn occluded_stream_soa(&self, n: usize) -> (call: NativeCall)
        ensures
            call == (NativeCall::OccludedNp { scene: self.native(), n: n as u32 }),
    {
        NativeCall::OccludedNp { scene: self.handle, n: n as u32 }
    }

    /// Asks for the closest hits of `m` rays that lie anywhere.
    pub fn intersect1mp(&self, m: usize) -> (call: NativeCall)
        ensures
            call == (NativeCall::Intersect1Mp { scene: self.native(), m: m as u32 }),
    {
        NativeCall::Intersect1Mp { scene: self.handle, m: m as u32 }
    }

    /// Asks whether `m` rays that lie anywhere are occluded.
    pub fn occluded1mp(&self, m: usize) -> (call: NativeCall)
        ensures
            call == (NativeCall::Occluded1Mp { scene: self.native(), m: m as u32 }),
    {
        NativeCall::Occluded1Mp { scene: self.handle, m: m as u32 }
    }

    /// Sets the progress callback: the native call to make, and the callback that
    /// was set before, to be dropped after it.
    pub fn set_progress_monitor_function(&mut self, progress: P) -> (r: (NativeCall, Option<P>))
        ensures
            final(self).native() == old(self).native(),
            final(self).scene_device() == old(self).scene_device(),
            final(self)@ == old(self)@,
            final(self).progress() == Some(progress),
            r.0 == (NativeCall::SetSceneProgressMonitorFunction {
                scene: old(self).native(),
                registered: true,
            }),
            r.1 == old(self).progress(),
    {
        let mut previous: Option<P> = Some(progress);
        core::mem::swap(&mut self.progress_monitor_fn, &mut previous);
        (
            NativeCall::SetSceneProgressMonitorFunction { scene: self.handle, registered: true },
            previous,
        )
    }

    /// Unsets the progress callback: the native call to make, and the callback
    /// that was set before, to be dropped after it.
    pub fn unset_progress_monitor_function(&mut self) -> (r: (NativeCall, Option<P>))
        ensures
            final(self).native() == old(self).native(),
            final(self).scene_device() == old(self).scene_device(),
            final(self)@ == old(self)@,
            final(self).progress() is None,
            r.0 == (NativeCall::SetSceneProgressMonitorFunction {
                scene: old(self).native(),
                registered: false,
            }),
            r.1 == old(self).progress(),
    {
        let mut previous: Option<P> = None;
        core::mem::swap(&mut self.progress_monitor_fn, &mut previous);
        (
            NativeCall::SetSceneProgressMonitorFunction { scene: self.handle, registered: false },
            previous,
        )
    }

    /// Whether every attached geometry is a user geometry.
    pub open spec fn only_user_geometries(&self) -> bool {
        forall|id: u32|
            #![trigger self@[id]]
            self@.contains_key(id) ==> self@[id].geometry_kind() == GeometryKind::USER
    }

    /// Executable form of [`only_user_geometries`](Self::only_user_geometries).
    fn has_only_user_geometries(&self) -> (r: bool)
        ensures
            r == self.only_user_geometries(),
    {
        broadcast use vstd::std_specs::hash::group_hash_axioms;

        for g in it: self.geometries.values()
            invariant
                it.seq().unref().to_set() == self.geometries@.values(),
                forall|k: int|
                    0 <= k < it.index() ==> (#[trigger] it.seq()[k]).geometry_kind()
                        == GeometryKind::USER,
        {
            if g.kind() != GeometryKind::USER {
                proof {
                    let k = it.index() as int;
                    assert(it.seq().unref()[k] == *g);
                    assert(it.seq().unref().to_set().contains(*g));
                    let id = choose|id: u32|
                        self.geometries@.contains_key(id) && #[trigger] self.geometries@[id] == *g;
                    assert(self@.contains_key(id));
                    assert(self@[id].geometry_kind() != GeometryKind::USER);
                }
                return false;
            }
        }
        proof {
            let all = vstd::std_specs::iter::IteratorSpec::remaining(
                &vstd::std_specs::hash::spec_values_iter(&self.geometries),
            );
            assert forall|id: u32| #![trigger self@[id]] self@.contains_key(
                id,
            ) implies self@[id].geometry_kind() == GeometryKind::USER by {
                assert(self.geometries@.values().contains(self@[id]));
                assert(all.unref().to_set().contains(self@[id]));
            }
        }
        true
    }

    /// What [`collide`](Self::collide) is answered: both scenes must be of one
    /// device, hold a geometry each, and hold user geometries only.
    pub open spec fn can_collide(&self, other: &Self) -> bool {
        &&& self.scene_device().handle == other.scene_device().handle
        &&& !self@.is_empty()
        &&& !other@.is_empty()
        &&& self.only_user_geometries()
        &&& other.only_user_geometries()
    }

    /// Asks for the pairs of primitives of two scenes that may collide: the
    /// native call to make.
    pub fn collide(&self, other: &Self) -> (r: Result<NativeCall, Error>)
        ensures
            r == (if self.can_collide(other) {
                Ok::<NativeCall, Error>(
                    NativeCall::Collide { scene: self.native(), other: other.native() },
                )
            } else {
                Err(Error::INVALID_ARGUMENT)
            }),
    {
        broadcast use vstd::std_specs::hash::group_hash_axioms;

        if self.device.handle != other.device.handle {
            return Err(Error::INVALID_ARGUMENT);
        }
        if self.geometries.is_empty() || other.geometries.is_empty() {
            return Err(Error::INVALID_ARGUMENT);
        }
        if !self.has_only_user_geometries() || !other.has_only_user_geometries() {
            return Err(Error::INVALID_ARGUMENT);
        }
        Ok(NativeCall::Collide { scene: self.handle, other: other.handle })
    }

    /// Whether a ray turned out to be occluded: the native query sets the far end
    /// of such a ray to negative infinity.
    pub fn occluded_result(&self, ray: &Ray) -> (r: bool)
        ensures
            r == (ray.tfar == REAL_NEG_INFINITY),
    {
        ray.tfar == REAL_NEG_INFINITY
    }

    /// Asks for the closest hits of a stream of rays or ray packets. A stream of
    /// single rays has a native call of its own.
    pub fn intersect_stream_aos<R: RayHitPacket>(&self, rays: &Vec<R>) -> (call: NativeCall)
        ensures
            call == (if R::Ray::LEN == 1 {
                NativeCall::Intersect1M {
                    scene: self.native(),
                    m: rays@.len() as u32,
                    byte_stride: vstd::layout::size_of::<R>() as usize,
                }
            } else {
                NativeCall::IntersectNM {
                    scene: self.native(),
                    width: R::Ray::LEN as u32,
                    m: rays@.len() as u32,
                    byte_stride: vstd::layout::size_of::<R>() as usize,
                }
            }),
    {
        let m: usize = rays.len();
        let byte_stride: usize = core::mem::size_of::<R>();
        if R::Ray::LEN == 1 {
            NativeCall::Intersect1M { scene: self.handle, m: m as u32, byte_stride }
        } else {
            NativeCall::IntersectNM {
                scene: self.handle,
                width: R::Ray::LEN as u32,
                m: m as u32,
                byte_stride,
            }
        }
    }

    /// Asks whether the rays of a stream of rays or ray packets are occluded. A
    /// stream of single rays has a native call of its own.
    pub fn occluded_stream_aos<R: RayPacket>(&self, rays: &Vec<R>) -> (call: NativeCall)
        ensures
            call == (if R::LEN == 1 {
                NativeCall::Occluded1M {
                    scene: self.native(),
                    m: rays@.len() as u32,
                    byte_stride: vstd::layout::size_of::<R>() as usize,
                }
            } else {
                NativeCall::OccludedNM {
                    scene: self.native(),
                    width: R::LEN as u32,
                    m: rays@.len() as u32,
                    byte_stride: vstd::layout::size_of::<R>() as usize,
                }
            }),
    {
        let m: usize = rays.len();
        let byte_stride: usize = core::mem::size_of::<R>();
        if R::LEN == 1 {
            NativeCall::Occluded1M { scene: self.handle, m: m as u32, byte_stride }
        } else {
            NativeCall::OccludedNM {
                scene: self.handle,
                width: R::LEN as u32,
                m: m as u32,
                byte_stride,
            }
        }
    }

    /// Asks for the closest hits of a packet of 4 rays, masked by `valid`: the native
    /// call to make, and the mask as it goes along.
    pub fn intersect4(&self, valid: &ValidMaskN<4>) -> (r: (NativeCall, [i32; 4]))
        ensures
            r.0 == (NativeCall::IntersectPacket { scene: self.native(), width: 4 }),
            r.1@ == native_mask(valid@),
    {
        (NativeCall::IntersectPacket { scene: self.handle, width: 4 }, valid.native())
    }

    /// Asks for the closest hits of a packet of 8 rays, masked by `valid`: the native
    /// call to make, and the mask as it goes along.
    pub fn intersect8(&self, valid: &ValidMaskN<8>) -> (r: (NativeCall, [i32; 8]))
        ensures
            r.0 == (NativeCall::IntersectPacket { scene: self.native(), width: 8 }),
            r.1@ == native_mask(valid@),
    {
        (NativeCall::IntersectPacket { scene: self.handle, width: 8 }, valid.native())
    }

    /// Asks for the closest hits of a packet of 16 rays, masked by `valid`: the native
    /// call to make, and the mask as it goes along.
    pub fn intersect16(&self, valid: &ValidMaskN<16>) -> (r: (NativeCall, [i32; 16]))
        ensures
            r.0 == (NativeCall::IntersectPacket { scene: self.native(), width: 16 }),
            r.1@ == native_mask(valid@),
    {
        (NativeCall::IntersectPacket { scene: self.handle, width: 16 }, valid.native())
    }

    /// Asks whether the rays of a packet of 4, masked by `valid`, are occluded: the
    /// native call to make, and the mask as it goes along.
    pub fn occluded4(&self, valid: &ValidMaskN<4>) -> (r: (NativeCall, [i32; 4]))
        ensures
            r.0 == (NativeCall::OccludedPacket { scene: self.native(), width: 4 }),
            r.1@ == native_mask(valid@),
    {
        (NativeCall::OccludedPacket { scene: self.handle, width: 4 }, valid.native())
    }

    /// Asks whether the rays of a packet of 8, masked by `valid`, are occluded: the
    /// native call to make, and the mask as it goes along.
    pub fn occluded8(&self, valid: &ValidMaskN<8>) -> (r: (NativeCall, [i32; 8]))
        ensures
            r.0 == (NativeCall::OccludedPacket { scene: self.native(), width: 8 }),
            r.1@ == native_mask(valid@),
    {
        (NativeCall::OccludedPacket { scene: self.handle, width: 8 }, valid.native())
    }

    /// Asks whether the rays of a packet of 16, masked by `valid`, are occluded: the
    /// native call to make, and the mask as it goes along.
    pub fn occluded16(&self, valid: &ValidMaskN<16>) -> (r: (NativeCall, [i32; 16]))
        ensures
            r.0 == (NativeCall::OccludedPacket { scene: self.native(), width: 16 }),
            r.1@ == native_mask(valid@),
    {
        (NativeCall::OccludedPacket { scene: self.handle, width: 16 }, valid.native())
    }

    /// Asks for the primitives near 4 points, masked by `valid`: the native call to
    /// make, and the mask as it goes along.
    pub fn point_query4(&self, valid: &ValidMaskN<4>) -> (r: (NativeCall, [i32; 4]))
        ensures
            r.0 == (NativeCall::PointQueryN { scene: self.native(), width: 4 }),
            r.1@ == native_mask(valid@),
    {
        (NativeCall::PointQueryN { scene: self.handle, width: 4 }, valid.native())
    }

    /// Asks for the primitives near 8 points, masked by `valid`: the native call to
    /// make, and the mask as it goes along.
    pub fn point_query8(&self, valid: &ValidMaskN<8>) -> (r: (NativeCall, [i32; 8]))
        ensures
            r.0 == (NativeCall::PointQueryN { scene: self.native(), width: 8 }),
            r.1@ == native_mask(valid@),
    {
        (NativeCall::PointQueryN { scene: self.handle, width: 8 }, valid.native())
    }

    /// Asks for the primitives near 16 points, masked by `valid`: the native call to
    /// make, and the mask as it goes along.
    pub fn point_query16(&self, valid: &ValidMaskN<16>) -> (r: (NativeCall, [i32; 16]))
        ensures
            r.0 == (NativeCall::PointQueryN { scene: self.native(), width: 16 }),
            r.1@ == native_mask(valid@),
    {
        (NativeCall::PointQueryN { scene: self.handle, width: 16 }, valid.native())
    }

    /// Asks for the bounds of the scene: the native call to make, and the box
    /// that it writes to.
    pub fn get_bounds(&self) -> (r: (NativeCall, Bounds))
        ensures
            r.0 == (NativeCall::GetSceneBounds { scene: self.native() }),
            r.1 == zero_bounds(),
    {
        (NativeCall::GetSceneBounds { scene: self.handle }, Bounds::zero())
    }

    /// Asks for the bounds of the scene at both ends of its time range: the
    /// native call to make, and the boxes that it writes to.
    pub fn get_linear_bounds(&self) -> (r: (NativeCall, LinearBounds))
        ensures
            r.0 == (NativeCall::GetSceneLinearBounds { scene: self.native() }),
            r.1 == (LinearBounds { bounds0: zero_bounds(), bounds1: zero_bounds() }),
    {
        (
            NativeCall::GetSceneLinearBounds { scene: self.handle },
            LinearBounds { bounds0: Bounds::zero(), bounds1: Bounds::zero() },
        )
    }

    /// Gives the scene up: the native scene is released, then the handles of the
    /// attached geometries go away, in some order.
    pub fn release<'buf, F, U>(self, store: &mut GeometryStore<'buf, F, U>) -> (calls: Vec<
        NativeCall,
    >)
        requires
            old(store).wf(),
        ensures
            final(store).wf(),
            final(store).next() == old(store).next(),
            exists|ids: Seq<u32>|
                {
                    &&& ids.no_duplicates()
                    &&& #[trigger] ids.to_set() == self@.dom()
                    &&& final(store)@ == with_all_released(old(store)@, self@, ids)
                    &&& calls@ == seq![NativeCall::ReleaseScene { scene: self.native() }]
                        + all_release_calls(old(store)@, self@, ids)
                },
    {
        broadcast use vstd::std_specs::hash::group_hash_axioms;

        let mut calls: Vec<NativeCall> = Vec::new();
        calls.push(NativeCall::ReleaseScene { scene: self.handle });
        let ghost mut ids: Seq<u32> = Seq::empty();
        for id in it: self.geometries.keys()
            invariant
                store.wf(),
                store.next() == old(store).next(),
                it.seq().no_duplicates(),
                it.seq().unref().to_set() == self.geometries@.dom(),
                ids == it.seq().unref().take(it.index() as int),
                store@ == with_all_released(old(store)@, self@, ids),
                calls@ == seq![NativeCall::ReleaseScene { scene: self.native() }]
                    + all_release_calls(old(store)@, self@, ids),
        {
            proof {
                let k = it.index() as int;
                let all = it.seq().unref();
                assert(all[k] == *id);
                assert(all.to_set().contains(*id));
                let before = ids;
                ids = ids.push(*id);
                assert(ids =~= all.take(k + 1));
                assert(ids.drop_last() =~= before);
                assert(ids.last() == *id);
            }
            match self.geometries.get(id) {
                Some(g) => {
                    let mut due = store.release(g.id());
                    calls.append(&mut due);
                },
                None => {},
            }
        }
        proof {
            let all = vstd::std_specs::iter::IteratorSpec::remaining(
                &vstd::std_specs::hash::spec_keys_iter(&self.geometries),
            );
            assert(ids =~= all.unref());
            assert(ids.no_duplicates());
            assert(ids.to_set() == self@.dom());
        }
        calls
    }
}

/// An attached geometry is found under its ID, and no other ID is touched; a
/// detached one is not found any more.
pub proof fn lemma_attach_and_detach<P>(
    before: Scene<P>,
    attached: Scene<P>,
    detached: Scene<P>,
    geometry: Geometry,
    id: u32,
    other: u32,
)
    requires
        attached@ == before@.insert(id, geometry),
        detached@ == attached@.remove(id),
    ensures
        attached@.get(id) == Some(geometry),
        detached@.get(id) is None,
        other != id ==> attached@.get(other) == before@.get(other),
        other != id ==> detached@.get(other) == before@.get(other),
        before@.get(id) is None ==> detached@ == before@,
{
    if before@.get(id) is None {
        assert(detached@ =~= before@);
    }
}

/// Attaching a geometry to a scene makes it impossible to edit through any handle
/// that is left, for none of them is the only one. Detaching it, or giving up a
/// handle of the application's, brings the store back to where it was: the
/// geometry stays while either of them is there.
pub proof fn lemma_attached_geometry_is_shared<'buf, F, U>(
    m: Map<u64, Committed<'buf, F, U>>,
    geometry: Geometry,
)
    requires
        m.contains_key(geometry.ident()),
        1 <= m[geometry.ident()].owners < u64::MAX,
    ensures
        with_attached(m, geometry, None)[geometry.ident()].owners != 1,
        with_attached(m, geometry, None)[geometry.ident()].shared == m[geometry.ident()].shared,
        with_released(with_attached(m, geometry, None), geometry.ident()) == m,
        release_calls(with_attached(m, geometry, None), geometry.ident()) == Seq::<
            NativeCall,
        >::empty(),
{
    assert(with_released(with_attached(m, geometry, None), geometry.ident()) =~= m);
}

/// Whether two scenes can collide does not depend on which is asked.
pub proof fn lemma_collision_is_symmetric<P>(a: Scene<P>, b: Scene<P>)
    ensures
        a.can_collide(&b) == b.can_collide(&a),
{
}

/// The user pointers of a packet of point queries: one for each lane, in order.
pub fn lane_tokens<const N: usize>() -> (t: [usize; N])
    ensures
        forall|i: int| 0 <= i < N ==> #[trigger] t[i] == i,
{
    let mut t: [usize; N] = [0; N];
    let mut i: usize = 0;
    while i < N
        invariant
            i <= N,
            forall|j: int| 0 <= j < i ==> #[trigger] t[j] == j,
        decreases N - i,
    {
        t[i] = i;
        i += 1;
    }
    t
}

/// The data of the lane whose query a point-query callback is called for, for
/// writing: `token` is the user pointer that came with the call. The data of the
/// other lanes stays.
pub fn lane_data<D, const N: usize>(per_lane: &mut [D; N], token: usize) -> (d: &mut D)
    requires
        token < N,
    ensures
        *d == old(per_lane)@[token as int],
        final(per_lane)@ == old(per_lane)@.update(token as int, *final(d)),
{
    &mut per_lane[token]
}

/// Two scenes can collide exactly if they are of one device, each holds a geometry, and
/// every geometry of both is a user geometry.
pub proof fn lemma_scenes_that_can_collide<P>(a: Scene<P>, b: Scene<P>)
    ensures
        a.can_collide(&b) <==> {
            &&& a.scene_device().handle == b.scene_device().handle
            &&& a@.dom() != Set::<u32>::empty()
            &&& b@.dom() != Set::<u32>::empty()
            &&& forall|id: u32| #[trigger]
                a@.dom().contains(id) ==> a@[id].geometry_kind() is USER
            &&& forall|id: u32| #[trigger]
                b@.dom().contains(id) ==> b@[id].geometry_kind() is USER
        },
{
    assert(a@.dom() =~= Set::<u32>::empty() <==> a@.is_empty());
    assert(b@.dom() =~= Set::<u32>::empty() <==> b@.is_empty());
}

/// Attaching counts one more handle of the geometry; one that it displaces loses one. All
/// other geometries keep theirs.
pub proof fn lemma_attaching_counts_one_handle<'buf, F, U>(
    m: Map<u64, Committed<'buf, F, U>>,
    geometry: Geometry,
    displaced: Geometry,
    other: u64,
)
    requires
        m.contains_key(geometry.ident()),
        m.contains_key(displaced.ident()),
        1 <= m[geometry.ident()].owners < u64::MAX,
        1 < m[displaced.ident()].owners,
        geometry.ident() != displaced.ident(),
        other != geometry.ident(),
    ensures
        with_attached(m, geometry, None)[geometry.ident()].owners == m[geometry.ident()].owners + 1,
        with_attached(m, geometry, None).get(other) == m.get(other),
        with_attached(m, geometry, Some(displaced))[geometry.ident()].owners
            == m[geometry.ident()].owners + 1,
        with_attached(m, geometry, Some(displaced))[displaced.ident()].owners
            == m[displaced.ident()].owners - 1,
        other != displaced.ident() ==> with_attached(m, geometry, Some(displaced)).get(other)
            == m.get(other),
        displaced_calls(m, geometry, None).len() == 0,
        displaced_calls(m, geometry, Some(displaced)).len() == 0,
{
}

/// How many of `ids` are attached to the geometry of `ident`.
pub open spec fn times_attached(attached: Map<u32, Geometry>, ids: Seq<u32>, ident: u64) -> nat
    decreases ids.len(),
{
    if ids.len() == 0 {
        0
    } else {
        times_attached(attached, ids.drop_last(), ident) + (if attached[ids.last()].ident()
            == ident {
            1nat
        } else {
            0
        })
    }
}

/// A scene that goes away gives up one handle for each geometry attached to it: a
/// geometry with other handles keeps those, one that was not attached keeps all, and
/// while others have handles left no native call is due.
pub proof fn lemma_a_scene_gives_up_its_handles<'buf, F, U>(
    m: Map<u64, Committed<'buf, F, U>>,
    attached: Map<u32, Geometry>,
    ids: Seq<u32>,
    ident: u64,
)
    ensures
        times_attached(attached, ids, ident) == 0 ==> with_all_released(m, attached, ids).get(ident)
            == m.get(ident),
        m.contains_key(ident) && times_attached(attached, ids, ident) < m[ident].owners ==> {
            &&& with_all_released(m, attached, ids).contains_key(ident)
            &&& with_all_released(m, attached, ids)[ident].shared == m[ident].shared
            &&& with_all_released(m, attached, ids)[ident].owners == m[ident].owners
                - times_attached(attached, ids, ident)
        },
        m.contains_key(ident) && m[ident].owners >= 1 && times_attached(attached, ids, ident)
            == m[ident].owners ==> !with_all_released(m, attached, ids).contains_key(ident),
    decreases ids.len(),
{
    if ids.len() > 0 {
        lemma_a_scene_gives_up_its_handles(m, attached, ids.drop_last(), ident);
    }
}

/// What is kept apart from the geometries is the native scene, its device and its
/// progress callback.
pub proof fn lemma_attaching_keeps_the_rest<P>(pre: Scene<P>, post: Scene<P>)
    ensures
        post.same_apart_from_geometries(&pre) <==> {
            &&& post.native() == pre.native()
            &&& post.scene_device() == pre.scene_device()
            &&& post.progress() == pre.progress()
        },
{
}

/// Each query is asked of the scene it is made on, under its own native call: single
/// rays, streams of so many, and packets of 4, 8 and 16 lanes, which take along the
/// mask of the lanes, -1 for a lane that is in it and 0 for one that is not.
pub proof fn lemma_queries_name_their_scene<P>(
    s: &Scene<P>,
    n: usize,
    call: NativeCall,
    v4: &ValidMaskN<4>,
    v8: &ValidMaskN<8>,
    v16: &ValidMaskN<16>,
    r4: (NativeCall, [i32; 4]),
    r8: (NativeCall, [i32; 8]),
    r16: (NativeCall, [i32; 16]),
)
    ensures
        ({
            let scene = s.native();
            &&& call_ensures(Scene::<P>::intersect, (s,), call) ==> call == (
            NativeCall::Intersect1 { scene })
            &&& call_ensures(Scene::<P>::occluded, (s,), call) ==> call == (NativeCall::Occluded1 {
                scene,
            })
            &&& call_ensures(Scene::<P>::point_query, (s,), call) ==> call == (
            NativeCall::PointQuery { scene })
            &&& call_ensures(Scene::<P>::intersect_stream_soa, (s, n), call) ==> call == (
            NativeCall::IntersectNp { scene, n: n as u32 })
            &&& call_ensures(Scene::<P>::occluded_stream_soa, (s, n), call) ==> call == (
            NativeCall::OccludedNp { scene, n: n as u32 })
            &&& call_ensures(Scene::<P>::intersect1mp, (s, n), call) ==> call == (
            NativeCall::Intersect1Mp { scene, m: n as u32 })
            &&& call_ensures(Scene::<P>::occluded1mp, (s, n), call) ==> call == (
            NativeCall::Occluded1Mp { scene, m: n as u32 })
            &&& call_ensures(Scene::<P>::intersect4, (s, v4), r4) ==> r4.0 == (
            NativeCall::IntersectPacket { scene, width: 4 })
            &&& call_ensures(Scene::<P>::intersect8, (s, v8), r8) ==> r8.0 == (
            NativeCall::IntersectPacket { scene, width: 8 })
            &&& call_ensures(Scene::<P>::intersect16, (s, v16), r16) ==> r16.0 == (
            NativeCall::IntersectPacket { scene, width: 16 })
            &&& call_ensures(Scene::<P>::occluded4, (s, v4), r4) ==> r4.0 == (
            NativeCall::OccludedPacket { scene, width: 4 })
            &&& call_ensures(Scene::<P>::occluded8, (s, v8), r8) ==> r8.0 == (
            NativeCall::OccludedPacket { scene, width: 8 })
            &&& call_ensures(Scene::<P>::occluded16, (s, v16), r16) ==> r16.0 == (
            NativeCall::OccludedPacket { scene, width: 16 })
            &&& call_ensures(Scene::<P>::point_query4, (s, v4), r4) ==> r4.0 == (
            NativeCall::PointQueryN { scene, width: 4 })
            &&& call_ensures(Scene::<P>::point_query8, (s, v8), r8) ==> r8.0 == (
            NativeCall::PointQueryN { scene, width: 8 })
            &&& call_ensures(Scene::<P>::point_query16, (s, v16), r16) ==> r16.0 == (
            NativeCall::PointQueryN { scene, width: 16 })
        }),
        call_ensures(Scene::<P>::intersect4, (s, v4), r4) || call_ensures(
            Scene::<P>::occluded4,
            (s, v4),
            r4,
        ) || call_ensures(Scene::<P>::point_query4, (s, v4), r4) ==> forall|i: int|
            0 <= i < 4 ==> #[trigger] r4.1@[i] == if v4@[i] is Valid {
                -1
            } else {
                0
            },
        call_ensures(Scene::<P>::intersect8, (s, v8), r8) || call_ensures(
            Scene::<P>::occluded8,
            (s, v8),
            r8,
        ) || call_ensures(Scene::<P>::point_query8, (s, v8), r8) ==> forall|i: int|
            0 <= i < 8 ==> #[trigger] r8.1@[i] == if v8@[i] is Valid {
                -1
            } else {
                0
            },
        call_ensures(Scene::<P>::intersect16, (s, v16), r16) || call_ensures(
            Scene::<P>::occluded16,
            (s, v16),
            r16,
        ) || call_ensures(Scene::<P>::point_query16, (s, v16), r16) ==> forall|i: int|
            0 <= i < 16 ==> #[trigger] r16.1@[i] == if v16@[i] is Valid {
                -1
            } else {
                0
            },
{
    assert(r4.1@.len() == 4);
    assert(r8.1@.len() == 8);
    assert(r16.1@.len() == 16);
}

/// A stream goes to the native library packet by packet, with as many lanes to each
/// as the packets have and as many bytes from one to the next as they take; streams
/// of single rays have their own calls.
pub proof fn lemma_streams_are_passed_packet_by_packet<P, H: RayHitPacket, R: RayPacket>(
    s: &Scene<P>,
    hits: &Vec<H>,
    rays: &Vec<R>,
    intersect: NativeCall,
    occluded: NativeCall,
)
    requires
        call_ensures(Scene::<P>::intersect_stream_aos::<H>, (s, hits), intersect),
        call_ensures(Scene::<P>::occluded_stream_aos::<R>, (s, rays), occluded),
    ensures
        match intersect {
            NativeCall::Intersect1M { scene, m, byte_stride } => {
                &&& H::Ray::LEN == 1 && scene == s.native() && m == hits@.len() as u32
                &&& byte_stride == vstd::layout::size_of::<H>() as usize
            },
            NativeCall::IntersectNM { scene, width, m, byte_stride } => {
                &&& H::Ray::LEN != 1 && scene == s.native() && m == hits@.len() as u32
                &&& width == H::Ray::LEN as u32
                &&& byte_stride == vstd::layout::size_of::<H>() as usize
            },
            _ => false,
        },
        match occluded {
            NativeCall::Occluded1M { scene, m, byte_stride } => {
                &&& R::LEN == 1 && scene == s.native() && m == rays@.len() as u32
                &&& byte_stride == vstd::layout::size_of::<R>() as usize
            },
            NativeCall::OccludedNM { scene, width, m, byte_stride } => {
                &&& R::LEN != 1 && scene == s.native() && m == rays@.len() as u32
                &&& width == R::LEN as u32
                &&& byte_stride == vstd::layout::size_of::<R>() as usize
            },
            _ => false,
        },
{
}

/// What is asked of an attached geometry through its scene is what would be asked of
/// it directly; without a geometry under the ID nothing is asked. The scene stays as
/// it is.
pub proof fn lemma_attached_geometries_are_reached_by_id<P>(
    s: &mut Scene<P>,
    id: u32,
    time_step: u32,
    usage: BufferUsage,
    slot: u32,
    transform: &[Real; 16],
    call: Option<NativeCall>,
)
    ensures
        ({
            let enabled = call_ensures(Scene::<P>::enable_geometry, (s, id), call);
            let disabled = call_ensures(Scene::<P>::disable_geometry, (s, id), call);
            let updated = call_ensures(
                Scene::<P>::update_geometry_buffer,
                (s, id, usage, slot),
                call,
            );
            let committed = call_ensures(Scene::<P>::commit_geometry, (s, id), call);
            let moved = call_ensures(
                Scene::<P>::set_geometry_transform,
                (s, id, time_step, transform),
                call,
            );
            &&& enabled || disabled || updated || committed || moved ==> {
                &&& *final(s) == *old(s)
                &&& call is Some <==> old(s)@.contains_key(id)
            }
            &&& old(s)@.contains_key(id) ==> {
                let geometry = old(s)@[id].native();
                &&& enabled ==> call == Some(NativeCall::EnableGeometry { geometry })
                &&& disabled ==> call == Some(NativeCall::DisableGeometry { geometry })
                &&& updated ==> call == Some(
                    NativeCall::UpdateGeometryBuffer { geometry, usage, slot },
                )
                &&& committed ==> call == Some(NativeCall::CommitGeometry { geometry })
                &&& moved ==> call == Some(
                    NativeCall::SetGeometryTransform {
                        geometry,
                        time_step,
                        format: Format::FLOAT4X4_COLUMN_MAJOR,
                        matrix: *transform,
                    },
                )
            }
        }),
{
}

/// A geometry is attached to the scene it was asked for, under the ID it was asked
/// for; an ID that is in use keeps its geometry.
pub proof fn lemma_a_free_id_takes_its_geometry<'buf, P, F, U>(
    s: &mut Scene<P>,
    store: &mut GeometryStore<'buf, F, U>,
    g: &Geometry,
    id: u32,
    calls: Vec<NativeCall>,
    request: NativeCall,
)
    requires
        call_ensures(
            Scene::<P>::attach_geometry_by_id::<F, U>,
            (s, store, g, id),
            calls,
        ),
    ensures
        calls@.len() == 1,
        calls@[0] == (NativeCall::AttachGeometryByID {
            scene: old(s).native(),
            geometry: g.native(),
            id,
        }),
        old(s)@.contains_key(id) ==> final(s)@ == old(s)@ && final(store)@ == old(store)@,
        !old(s)@.contains_key(id) ==> {
            &&& final(s)@.contains_key(id) && final(s)@[id] == *g
            &&& forall|other: u32|
                other != id ==> (#[trigger] final(s)@.contains_key(other) <==> old(
                    s,
                )@.contains_key(other))
            &&& forall|other: u32| other != id ==> #[trigger] final(s)@[other] == old(s)@[other]
        },
        final(s).native() == old(s).native(),
        call_ensures(Scene::<P>::attach_request, (old(s), g), request) ==> request == (
        NativeCall::AttachGeometry { scene: old(s).native(), geometry: g.native() }),
{
}

/// A ray is taken to be occluded where its far end has the bits of negative infinity,
/// and only there.
pub proof fn lemma_occlusion_is_told_by_the_far_end<P>(s: &Scene<P>, ray: &Ray, r: bool)
    requires
        call_ensures(Scene::<P>::occluded_result, (s, ray), r),
    ensures
        r <==> ray.tfar == 0xff80_0000u32,
{
}

/// Commits, flags and qualities go to the scene they are given to, and bounds that
/// are still to be written are all zero.
pub proof fn lemma_scene_settings_are_passed_on<P>(
    s: &mut Scene<P>,
    flags: u32,
    quality: BuildQuality,
    call: NativeCall,
    bounds: (NativeCall, Bounds),
    linear: (NativeCall, LinearBounds),
)
    ensures
        call_ensures(Scene::<P>::commit, (s,), call) ==> call == (NativeCall::CommitScene {
            scene: old(s).native(),
        }),
        call_ensures(Scene::<P>::set_flags, (s, flags), call) ==> call == (
        NativeCall::SetSceneFlags { scene: old(s).native(), flags }),
        call_ensures(Scene::<P>::set_build_quality, (s, quality), call) ==> call == (
        NativeCall::SetSceneBuildQuality { scene: old(s).native(), quality }),
        call_ensures(Scene::<P>::join_commit, (old(s),), call) ==> call == (
        NativeCall::JoinCommitScene { scene: old(s).native() }),
        call_ensures(Scene::<P>::get_flags, (old(s),), call) ==> call == (
        NativeCall::GetSceneFlags { scene: old(s).native() }),
        call_ensures(Scene::<P>::get_bounds, (old(s),), bounds) ==> {
            &&& bounds.0 == (NativeCall::GetSceneBounds { scene: old(s).native() })
            &&& bounds.1.lower_x == 0 && bounds.1.lower_y == 0 && bounds.1.lower_z == 0
            &&& bounds.1.upper_x == 0 && bounds.1.upper_y == 0 && bounds.1.upper_z == 0
        },
        call_ensures(Scene::<P>::get_linear_bounds, (old(s),), linear) ==> {
            &&& linear.0 == (NativeCall::GetSceneLinearBounds { scene: old(s).native() })
            &&& linear.1.bounds0 == linear.1.bounds1
            &&& linear.1.bounds0.lower_x == 0 && linear.1.bounds0.upper_z == 0
        },
{
}

/// A progress monitor takes the place of the one before, which is handed back; the
/// geometries of the scene are not touched.
pub proof fn lemma_progress_monitors_are_exchanged<P>(
    s: &mut Scene<P>,
    progress: P,
    r: (NativeCall, Option<P>),
)
    ensures
        call_ensures(Scene::<P>::set_progress_monitor_function, (s, progress), r) ==> {
            &&& final(s).progress() == Some(progress)
            &&& r.1 == old(s).progress()
            &&& final(s)@ == old(s)@
            &&& r.0 == (NativeCall::SetSceneProgressMonitorFunction {
                scene: old(s).native(),
                registered: true,
            })
        },
        call_ensures(Scene::<P>::unset_progress_monitor_function, (s,), r) ==> {
            &&& final(s).progress() is None
            &&& r.1 == old(s).progress()
            &&& final(s)@ == old(s)@
            &&& r.0 == (NativeCall::SetSceneProgressMonitorFunction {
                scene: old(s).native(),
                registered: false,
            })
        },
{
}

/// Two scenes are searched for collisions in the order in which they are named.
pub proof fn lemma_collisions_name_both_scenes<P>(
    s: &Scene<P>,
    other: &Scene<P>,
    r: Result<NativeCall, Error>,
)
    requires
        call_ensures(Scene::<P>::collide, (s, other), r),
    ensures
        r matches Ok(call) ==> call == (NativeCall::Collide {
            scene: s.native(),
            other: other.native(),
        }),
        r matches Err(e) ==> e == Error::INVALID_ARGUMENT,
        r is Ok <==> {
            &&& s.scene_device().handle == other.scene_device().handle
            &&& s@.dom() != Set::<u32>::empty()
            &&& other@.dom() != Set::<u32>::empty()
            &&& forall|id: u32| #[trigger]
                s@.dom().contains(id) ==> s@[id].geometry_kind() is USER
            &&& forall|id: u32| #[trigger]
                other@.dom().contains(id) ==> other@[id].geometry_kind() is USER
        },
{
    lemma_scenes_that_can_collide(*s, *other);
}

/// A geometry that is displaced with its last handle is released, and forgotten.
pub proof fn lemma_displaced_with_its_last_handle<'buf, F, U>(
    m: Map<u64, Committed<'buf, F, U>>,
    geometry: Geometry,
    displaced: Geometry,
)
    requires
        m.contains_key(geometry.ident()),
        m.contains_key(displaced.ident()),
        m[displaced.ident()].owners == 1,
        geometry.ident() != displaced.ident(),
    ensures
        !with_attached(m, geometry, Some(displaced)).contains_key(displaced.ident()),
        displaced_calls(m, geometry, Some(displaced)).len() > 0,
        displaced_calls(m, geometry, Some(displaced))[0] == (NativeCall::ReleaseGeometry {
            geometry: m[displaced.ident()].shared.handle,
        }),
{
}

/// A geometry of which a scene that goes away has all the handles is released.
pub proof fn lemma_a_scene_releases_what_it_alone_holds<'buf, F, U>(
    m: Map<u64, Committed<'buf, F, U>>,
    attached: Map<u32, Geometry>,
    ids: Seq<u32>,
    ident: u64,
)
    requires
        m.contains_key(ident),
        m[ident].owners >= 1,
        times_attached(attached, ids, ident) == m[ident].owners,
    ensures
        exists|k: int|
            0 <= k < all_release_calls(m, attached, ids).len() && #[trigger] all_release_calls(
                m,
                attached,
                ids,
            )[k] == (NativeCall::ReleaseGeometry { geometry: m[ident].shared.handle }),
    decreases ids.len(),
{
    let first = ids.drop_last();
    let calls = all_release_calls(m, attached, first);
    let due = release_calls(with_all_released(m, attached, first), attached[ids.last()].ident());
    if times_attached(attached, first, ident) == m[ident].owners {
        lemma_a_scene_releases_what_it_alone_holds(m, attached, first, ident);
        let k = choose|k: int|
            0 <= k < calls.len() && #[trigger] calls[k] == (NativeCall::ReleaseGeometry {
                geometry: m[ident].shared.handle,
            });
        assert((calls + due)[k] == calls[k]);
        assert(all_release_calls(m, attached, ids)[k] == calls[k]);
    } else {
        lemma_a_scene_gives_up_its_handles(m, attached, first, ident);
        assert((calls + due)[calls.len() as int] == due[0]);
        assert(all_release_calls(m, attached, ids)[calls.len() as int] == due[0]);
    }
}

/// Handles that scenes give up one after the other are given up in that order.
pub proof fn lemma_handles_are_given_up_in_order<'buf, F, U>(
    m: Map<u64, Committed<'buf, F, U>>,
    attached: Map<u32, Geometry>,
    a: Seq<u32>,
    b: Seq<u32>,
)
    ensures
        with_all_released(m, attached, a + b) == with_all_released(
            with_all_released(m, attached, a),
            attached,
            b,
        ),
        all_release_calls(m, attached, a + b) == all_release_calls(m, attached, a)
            + all_release_calls(with_all_released(m, attached, a), attached, b),
    decreases b.len(),
{
    if b.len() == 0 {
        assert(a + b =~= a);
    } else {
        assert((a + b).drop_last() =~= a + b.drop_last());
        assert((a + b).last() == b.last());
        lemma_handles_are_given_up_in_order(m, attached, a, b.drop_last());
    }
}

/// A detached geometry is gone from the scene, which asks the native library for
/// that first; its handle is given up, and with the last one the geometry goes.
pub proof fn lemma_detached_geometries_lose_a_handle<'buf, P, F, U>(
    s: &mut Scene<P>,
    store: &mut GeometryStore<'buf, F, U>,
    id: u32,
    calls: Vec<NativeCall>,
)
    requires
        call_ensures(Scene::<P>::detach_geometry::<F, U>, (s, store, id), calls),
    ensures
        !final(s)@.contains_key(id),
        forall|other: u32|
            other != id && old(s)@.contains_key(other) ==> final(s)@.contains_key(other)
                && #[trigger] final(s)@[other] == old(s)@[other],
        final(s).native() == old(s).native(),
        calls@.len() > 0,
        calls@[0] == (NativeCall::DetachGeometry { scene: old(s).native(), id }),
        !old(s)@.contains_key(id) ==> calls@.len() == 1 && final(store)@ == old(store)@,
        old(s)@.contains_key(id) && old(store)@.contains_key(old(s)@[id].ident()) ==> {
            let ident = old(s)@[id].ident();
            let owners = old(store)@[ident].owners;
            &&& owners > 1 ==> {
                &&& calls@.len() == 1
                &&& final(store)@.contains_key(ident)
                &&& final(store)@[ident].owners == owners - 1
            }
            &&& owners == 1 ==> {
                &&& calls@.len() > 1
                &&& calls@[1] == (NativeCall::ReleaseGeometry {
                    geometry: old(store)@[ident].shared.handle,
                })
                &&& !final(store)@.contains_key(ident)
            }
        },
{
}

/// A geometry that is looked up is the one that is attached under the ID, with one
/// handle more; where the native library has none, or the scene, there is none.
pub proof fn lemma_lookups_find_what_is_attached<'buf, P, F, U>(
    s: &Scene<P>,
    store: &mut GeometryStore<'buf, F, U>,
    id: u32,
    raw: usize,
    r: Option<Geometry>,
    checked: NativeCall,
    unchecked: NativeCall,
)
    requires
        call_ensures(Scene::<P>::get_geometry::<F, U>, (s, store, id, raw), r) || call_ensures(
            Scene::<P>::get_geometry_unchecked::<F, U>,
            (s, store, id, raw),
            r,
        ),
        call_ensures(Scene::<P>::get_geometry_request, (s, id), checked),
        call_ensures(Scene::<P>::get_geometry_unchecked_request, (s, id), unchecked),
        s.can_hand_out(old(store), id),
    ensures
        r is Some <==> raw != 0 && s@.contains_key(id),
        r matches Some(g) ==> {
            &&& g == s@[id]
            &&& final(store)@[g.ident()].owners == old(store)@[g.ident()].owners + 1
            &&& final(store)@[g.ident()].shared == old(store)@[g.ident()].shared
        },
        r is None ==> final(store)@ == old(store)@,
        checked == (NativeCall::GetGeometryThreadSafe { scene: s.native(), id }),
        unchecked == (NativeCall::GetGeometry { scene: s.native(), id }),
{
}

/// A scene that is given up releases the native scene before anything else.
pub proof fn lemma_scenes_are_released_first<'buf, P, F, U>(
    s: Scene<P>,
    store: &mut GeometryStore<'buf, F, U>,
    calls: Vec<NativeCall>,
)
    requires
        call_ensures(Scene::<P>::release::<F, U>, (s, store), calls),
    ensures
        calls@.len() > 0,
        calls@[0] == (NativeCall::ReleaseScene { scene: s.native() }),
        s@.dom() == Set::<u32>::empty() ==> calls@.len() == 1 && final(store)@ == old(store)@,
{
    let ids = choose|ids: Seq<u32>|
        {
            &&& ids.no_duplicates()
            &&& #[trigger] ids.to_set() == s@.dom()
            &&& final(store)@ == with_all_released(old(store)@, s@, ids)
            &&& calls@ == seq![NativeCall::ReleaseScene { scene: s.native() }]
                + all_release_calls(old(store)@, s@, ids)
        };
    if ids.len() > 0 {
        assert(ids.to_set().contains(ids[0]));
    }
}

/// A scene is asked for of its device and has the handle that came back, no geometries
/// and no progress monitor; without a handle there is only the device's error. Flags
/// are set on the scene that was made.
pub proof fn lemma_new_scenes_are_empty<P>(
    device: Device,
    flags: u32,
    handle: usize,
    error: Error,
    request: NativeCall,
    r: Result<Scene<P>, Error>,
    flagged: Result<(Scene<P>, NativeCall), Error>,
    id: u32,
)
    requires
        call_ensures(Scene::<P>::request, (&device,), request),
        call_ensures(Scene::<P>::new, (device, handle, error), r),
        call_ensures(Scene::<P>::new_with_flags, (device, flags, handle, error), flagged),
    ensures
        request == (NativeCall::NewScene { device: device.handle }),
        r is Ok <==> handle != 0,
        flagged is Ok <==> handle != 0,
        r matches Err(e) ==> e == error,
        flagged matches Err(e) ==> e == error,
        r matches Ok(s) ==> {
            &&& s.native() == handle && s.scene_device() == device
            &&& s.progress() is None
            &&& !s@.contains_key(id)
        },
        flagged matches Ok((s, call)) ==> {
            &&& s.native() == handle && s.scene_device() == device
            &&& s.progress() is None
            &&& !s@.contains_key(id)
            &&& call == (NativeCall::SetSceneFlags { scene: handle, flags })
        },
{
}

/// A geometry that is attached under an ID is found there, and the others where they
/// were. Its handles are one more; one that it displaces loses a handle.
pub proof fn lemma_attached_geometries_are_found<'buf, P, F, U>(
    s: &mut Scene<P>,
    store: &mut GeometryStore<'buf, F, U>,
    g: &Geometry,
    id: u32,
    other: u32,
    calls: Vec<NativeCall>,
    found: Option<&Geometry>,
)
    requires
        old(store).wf(),
        old(store).has(g),
        old(store)@[g.ident()].owners < u64::MAX,
        call_ensures(Scene::<P>::attach_geometry::<F, U>, (s, store, g, id), calls),
        other != id,
    ensures
        final(s)@.contains_key(id) && final(s)@[id] == *g,
        final(s)@.contains_key(other) <==> old(s)@.contains_key(other),
        old(s)@.contains_key(other) ==> final(s)@[other] == old(s)@[other],
        final(s).native() == old(s).native(),
        final(s).progress() == old(s).progress(),
        !old(s)@.contains_key(id) ==> {
            &&& calls@.len() == 0
            &&& final(store)@[g.ident()].owners == old(store)@[g.ident()].owners + 1
        },
        old(s)@.contains_key(id) && old(s)@[id].ident() == g.ident() ==> {
            &&& calls@.len() == 0
            &&& final(store)@[g.ident()].owners == old(store)@[g.ident()].owners
        },
        call_ensures(Scene::<P>::attached, (final(s), id), found) ==> found is Some
            && *found->Some_0 == *g,
        call_ensures(Scene::<P>::attached, (final(s), other), found) ==> (found is Some
            <==> old(s)@.contains_key(other)),
{
}

/// Storage of an attached geometry is located, and looked at, where the geometry has
/// storage of its own in the slot; anything else is refused.
pub proof fn lemma_storage_of_attached_geometries<'buf, P, F, U, T>(
    s: &mut Scene<P>,
    store: &GeometryStore<'buf, F, U>,
    id: u32,
    usage: BufferUsage,
    slot: u32,
    address: usize,
    request: Result<NativeCall, Error>,
    mapped: Result<(usize, usize), Error>,
)
    ensures
        ({
            let attached = old(s)@.contains_key(id);
            let g = old(s)@[id];
            let bindings = store@[g.ident()].shared.attachments@;
            let own = attached && bindings.contains_key((usage, slot)) && bindings[(
                usage,
                slot,
            )] is Local;
            let t = vstd::layout::size_of::<T>();
            let size = bindings[(usage, slot)]->size.value();
            &&& call_ensures(
                Scene::<P>::geometry_buffer_request::<F, U>,
                (old(s), store, id, usage, slot),
                request,
            ) ==> {
                &&& request is Ok <==> own
                &&& request matches Err(e) ==> e == Error::INVALID_ARGUMENT
                &&& request matches Ok(call) ==> call == (NativeCall::GetGeometryBufferData {
                    geometry: g.native(),
                    usage,
                    slot,
                })
            }
            &&& call_ensures(
                Scene::<P>::with_geometry_buffer_mut::<F, U, T>,
                (s, store, id, usage, slot, address),
                mapped,
            ) ==> {
                &&& mapped is Ok <==> {
                    &&& own && address != 0 && t > 0 && size % t == 0
                    &&& address as nat % vstd::layout::align_of::<T>() == 0
                }
                &&& mapped matches Err(e) ==> e == Error::INVALID_ARGUMENT
                &&& mapped matches Ok((at, n)) ==> at == address && n == size / t
                &&& *final(s) == *old(s)
            }
        }),
{
}

/// The lanes of a packet of point queries are numbered in order, and a number leads back
/// to the data of its lane and of no other.
pub proof fn lemma_tokens_lead_to_their_lanes<D, const N: usize>(
    tokens: [usize; N],
    per_lane: &mut [D; N],
    i: usize,
    j: int,
    d: &mut D,
)
    requires
        call_ensures(lane_tokens::<N>, (), tokens),
        call_ensures(lane_data::<D, N>, (per_lane, tokens[i as int]), d),
        i < N,
        0 <= j < N,
    ensures
        *old(d) == old(per_lane)@[i as int],
        final(per_lane)@[j] == if j == i {
            *final(d)
        } else {
            old(per_lane)@[j]
        },
{
    assert(tokens[i as int] == i);
}

} // verus!
