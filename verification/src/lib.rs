//! Verified core of a safe binding to the Embree 3.13.5 ray-tracing kernels.
//!
//! The library decides, checks and records; it holds no native memory and makes
//! no native call. Where a native call is due, a function returns it as a
//! [`NativeCall`] value; where the native reply decides what happens next, a
//! function takes that reply as an argument. Real numbers are held by their bit
//! pattern ([`Real`]): the library moves them and never computes with them.
//!
//! - A [`GeometryBuilder`] holds the state of a geometry alone and is the only
//!   place where buffers and callbacks are changed. Committed geometries live in
//!   a [`GeometryStore`], which counts the handles that share them; a builder is
//!   regained only through the last handle.
//! - A [`Scene`] keeps a handle of every geometry attached to it.
//! - A native callback finds its closure and its own user data through the
//!   [`CallSite`] of its geometry, and sees packets as [`RayN`], [`HitN`] and
//!   [`ValidityN`].
//! - A [`Bvh`] leads a conversation with the native builder. The node handles of a
//!   build are resolved against that build only, and only until the next one.

pub mod aligned;
pub mod args;
pub mod attachments;
pub mod buffer;
pub mod bvh;
pub mod call;
pub mod callback;
pub mod context;
pub mod geometry;
pub mod interpolate;
pub mod mask;
pub mod ray;
pub mod scene;
pub mod sys;
pub mod transform;

pub use crate::aligned::{AlignedArray, AlignedVector};
pub use crate::args::{
    IntersectFunctionNArgs, OccludedFunctionNArgs, UserData, ValidityN, ValidityNIter,
    ValidityNIterMut,
};
pub use crate::attachments::{AttachedBuffer, Attachments};
pub use crate::buffer::{
    Bound, Buffer, BufferData, BufferLayout, BufferSize, BufferSource, BufferView, BufferViewMut,
    ByteRange,
};
pub use crate::bvh::{
    Allocator, BuildAction, BuildConfig, BuildCounter, BuildEvent, BuildPrimitive, Bvh, BvhBuilder,
    BvhNode, BvhResult, ChildBounds, Children, NodePtr,
};
pub use crate::call::NativeCall;
pub use crate::callback::{CallSite, CbKind, Slot, UserBinding, Vertices, VerticesIterMut};
pub use crate::context::{
    AsIntersectContext, IntersectContext, IntersectContextExt, IntersectContextFlags,
    PointQueryContext,
};
pub use crate::geometry::{
    Geometry, GeometryBuilder, GeometryStore, InstanceGeometryBuilder, QuadMeshBuilder,
    SharedBinding, TriangleMeshBuilder, UserGeometryBuilder,
};
pub use crate::interpolate::{
    InterpolateInput, InterpolateNCall, InterpolateNInput, InterpolateOutput,
};
pub use crate::mask::{ValidMask, ValidMaskN};
pub use crate::ray::packet::{
    Hit16, Hit4, Hit8, HitN, HitPacket, Ray16, Ray4, Ray8, RayHit16, RayHit4, RayHit8, RayHitN,
    RayHitPacket, RayN, RayPacket,
};
pub use crate::ray::{
    Hit, Ray, RayHit, SoAHit, SoAHitIter, SoAHitRef, SoARay, SoARayIter, SoARayIterMut, SoARayRef,
    SoARayRefMut,
};
pub use crate::scene::Scene;
pub use crate::sys::{
    BufferUsage, BuildFlags, BuildQuality, Device, Error, Format, GeometryKind, Real,
    SubdivisionMode, INVALID_ID,
};
pub use crate::transform::{Bounds, LinearBounds, QuaternionDecomposition};
