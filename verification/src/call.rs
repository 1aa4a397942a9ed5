//! The native calls that the library asks for.

use vstd::prelude::*;

use crate::sys::{
    BufferUsage, BuildFlags, BuildQuality, Format, GeometryKind, Real, SubdivisionMode,
};
use crate::transform::QuaternionDecomposition;

verus! {

/// Where the outputs of an interpolation go: word offsets into the output
/// buffer, `None` where an output is not wanted.
#[derive(Debug, Clone, Copy, PartialEq, Eq, Structural)]
pub struct InterpolateTargets {
    pub p: Option<u32>,
    pub dp_du: Option<u32>,
    pub dp_dv: Option<u32>,
    pub ddp_du_du: Option<u32>,
    pub ddp_dv_dv: Option<u32>,
    pub ddp_du_dv: Option<u32>,
    pub value_count: u32,
}

/// Arguments of a standalone BVH build.
#[derive(Debug, Clone, Copy, PartialEq, Eq, Structural)]
pub struct BuildArguments {
    pub build_quality: BuildQuality,
    pub build_flags: BuildFlags,
    pub max_branching_factor: u32,
    pub max_depth: u32,
    pub sah_block_size: u32,
    pub min_leaf_size: u32,
    pub max_leaf_size: u32,
    pub traversal_cost: Real,
    pub intersection_cost: Real,
    pub bvh: usize,
    pub primitive_count: usize,
    pub primitive_array_capacity: usize,
    /// Whether the callback that splits primitives is registered.
    pub split_primitive: bool,
    /// Whether the progress callback is registered.
    pub build_progress: bool,
}

/// A call into the native library, with the arguments it is made with. Handles
/// and addresses are given as numbers, real numbers by bit pattern. The memory
/// that a call reads or fills (shared data, rays, hits, queries, coordinates, an
/// output buffer) goes along when the call is made and is not part of the value.
///
/// Where a call registers a callback, `registered` says whether the library's
/// own entry point for it is passed, or none.
#[derive(Debug, Clone, Copy, PartialEq, Eq)]
pub enum NativeCall {
    // Buffers.
    NewBuffer { device: usize, size: usize },
    RetainBuffer { buffer: usize },
    ReleaseBuffer { buffer: usize },
    GetBufferData { buffer: usize },
    // Geometries.
    NewGeometry { device: usize, kind: GeometryKind },
    SetGeometryUserData { geometry: usize },
    CommitGeometry { geometry: usize },
    ReleaseGeometry { geometry: usize },
    EnableGeometry { geometry: usize },
    DisableGeometry { geometry: usize },
    SetSharedGeometryBuffer {
        geometry: usize,
        usage: BufferUsage,
        slot: u32,
        format: Format,
        byte_offset: usize,
        stride: usize,
        item_count: usize,
    },
    SetGeometryBuffer {
        geometry: usize,
        usage: BufferUsage,
        slot: u32,
        format: Format,
        buffer: usize,
        byte_offset: usize,
        stride: usize,
        item_count: usize,
    },
    SetNewGeometryBuffer {
        geometry: usize,
        usage: BufferUsage,
        slot: u32,
        format: Format,
        stride: usize,
        item_count: usize,
    },
    UpdateGeometryBuffer { geometry: usize, usage: BufferUsage, slot: u32 },
    GetGeometryBufferData { geometry: usize, usage: BufferUsage, slot: u32 },
    SetGeometryVertexAttributeCount { geometry: usize, count: u32 },
    SetGeometryVertexAttributeTopology {
        geometry: usize,
        vertex_attribute: u32,
        topology: u32,
    },
    SetGeometryBuildQuality { geometry: usize, quality: BuildQuality },
    SetGeometryTessellationRate { geometry: usize, rate: Real },
    SetGeometryMaxRadiusScale { geometry: usize, scale: Real },
    SetGeometryMask { geometry: usize, mask: u32 },
    SetGeometryTimeStepCount { geometry: usize, count: u32 },
    SetGeometryTimeRange { geometry: usize, start: Real, end: Real },
    SetGeometryUserPrimitiveCount { geometry: usize, count: u32 },
    SetGeometrySubdivisionMode { geometry: usize, topology: u32, mode: SubdivisionMode },
    SetGeometryTopologyCount { geometry: usize, count: u32 },
    SetGeometryInstancedScene { geometry: usize, scene: usize },
    SetGeometryTransform {
        geometry: usize,
        time_step: u32,
        format: Format,
        matrix: [Real; 16],
    },
    SetGeometryTransformQuaternion {
        geometry: usize,
        time_step: u32,
        transform: QuaternionDecomposition,
    },
    GetGeometryTransform { geometry: usize, time: Real, format: Format },
    SetGeometryIntersectFilterFunction { geometry: usize, registered: bool },
    SetGeometryOccludedFilterFunction { geometry: usize, registered: bool },
    SetGeometryIntersectFunction { geometry: usize, registered: bool },
    SetGeometryOccludedFunction { geometry: usize, registered: bool },
    SetGeometryBoundsFunction { geometry: usize, registered: bool },
    SetGeometryDisplacementFunction { geometry: usize, registered: bool },
    SetGeometryPointQueryFunction { geometry: usize, function: Option<usize> },
    Interpolate {
        geometry: usize,
        prim_id: u32,
        u: Real,
        v: Real,
        usage: BufferUsage,
        slot: u32,
        targets: InterpolateTargets,
    },
    InterpolateN {
        geometry: usize,
        n: u32,
        /// Whether a mask goes along; without one every coordinate is valid.
        masked: bool,
        usage: BufferUsage,
        slot: u32,
        targets: InterpolateTargets,
    },
    GetGeometryFirstHalfEdge { geometry: usize, face: u32 },
    GetGeometryFace { geometry: usize, edge: u32 },
    GetGeometryNextHalfEdge { geometry: usize, edge: u32 },
    GetGeometryPreviousHalfEdge { geometry: usize, edge: u32 },
    GetGeometryOppositeHalfEdge { geometry: usize, topology: u32, edge: u32 },
    // Scenes.
    NewScene { device: usize },
    ReleaseScene { scene: usize },
    AttachGeometry { scene: usize, geometry: usize },
    AttachGeometryByID { scene: usize, geometry: usize, id: u32 },
    DetachGeometry { scene: usize, id: u32 },
    GetGeometry { scene: usize, id: u32 },
    GetGeometryThreadSafe { scene: usize, id: u32 },
    CommitScene { scene: usize },
    JoinCommitScene { scene: usize },
    SetSceneFlags { scene: usize, flags: u32 },
    GetSceneFlags { scene: usize },
    SetSceneBuildQuality { scene: usize, quality: BuildQuality },
    SetSceneProgressMonitorFunction { scene: usize, registered: bool },
    GetSceneBounds { scene: usize },
    GetSceneLinearBounds { scene: usize },
    Collide { scene: usize, other: usize },
    PointQuery { scene: usize },
    PointQueryN { scene: usize, width: u32 },
    // Ray queries. `width` is the number of rays in a packet, `m` the number of
    // packets in a stream, `byte_stride` the distance between packets.
    Intersect1 { scene: usize },
    IntersectPacket { scene: usize, width: u32 },
    Intersect1M { scene: usize, m: u32, byte_stride: usize },
    Intersect1Mp { scene: usize, m: u32 },
    IntersectNM { scene: usize, width: u32, m: u32, byte_stride: usize },
    IntersectNp { scene: usize, n: u32 },
    Occluded1 { scene: usize },
    OccludedPacket { scene: usize, width: u32 },
    Occluded1M { scene: usize, m: u32, byte_stride: usize },
    Occluded1Mp { scene: usize, m: u32 },
    OccludedNM { scene: usize, width: u32, m: u32, byte_stride: usize },
    OccludedNp { scene: usize, n: u32 },
    // Standalone BVHs.
    NewBVH { device: usize },
    ReleaseBVH { bvh: usize },
    GetDeviceVersion { device: usize },
    /// Reads the device's error code, which clears it.
    GetDeviceError { device: usize },
    BuildBVH { arguments: BuildArguments },
    ThreadLocalAlloc { allocator: usize, bytes: usize, align: usize },
}

} // verus!
