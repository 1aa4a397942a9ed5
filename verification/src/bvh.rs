//! The standalone BVH builder: the native library decides the shape of a tree,
//! the caller the layout of its nodes.
//!
//! A build is a conversation with the native library. [`Bvh::build_scoped`]
//! takes each reply and says what to do next; the BVH remembers which reply it
//! awaits and for which settings, so that a tree comes only from a build that was
//! accepted. Every build takes a brand that no
//! build before it had from a [`BuildCounter`]; one counter serves all builds of a
//! process. A node handle carries the brand of its build. It is resolved only by
//! the result of that build, and only until the BVH is built anew.

use vstd::prelude::*;

use crate::call::{BuildArguments, NativeCall};
use crate::sys::{
    is_positive_finite, positive_finite, BuildFlags, BuildQuality, Device, Error, Real, REAL_ONE,
    REAL_ZERO, RTC_VERSION,
};
use crate::transform::Bounds;

verus! {

/// Primitives that can be used to build a BVH: a box and two IDs.
#[derive(Debug, Clone, Copy, PartialEq, Eq, Structural)]
#[allow(non_snake_case)]
pub struct BuildPrimitive {
    pub lower_x: Real,
    pub lower_y: Real,
    pub lower_z: Real,
    pub geomID: u32,
    pub upper_x: Real,
    pub upper_y: Real,
    pub upper_z: Real,
    pub primID: u32,
}

/// Identifies one build.
#[derive(Debug, Clone, Copy, PartialEq, Eq, Structural)]
pub struct Brand {
    number: u64,
}

impl Brand {
    /// The number of the build.
    pub closed spec fn build_number(self) -> u64 {
        self.number
    }
}

/// Numbers the builds of a process. It only ever counts up, so that no number is
/// given out twice.
#[derive(Debug)]
pub struct BuildCounter {
    next: u64,
}

impl BuildCounter {
    /// The number of the next build.
    pub closed spec fn next_number(&self) -> u64 {
        self.next
    }

    /// A counter that has given no number out.
    pub fn new() -> (c: Self)
        ensures
            c.next_number() == 0,
    {
        BuildCounter { next: 0 }
    }

    /// Whether one more build can be counted.
    pub fn has_room(&self) -> (r: bool)
        ensures
            r == (self.next_number() < u64::MAX),
    {
        self.next < u64::MAX
    }

    /// A brand that was not given out before.
    fn fresh(&mut self) -> (b: Brand)
        requires
            old(self).next_number() < u64::MAX,
        ensures
            b.build_number() == old(self).next_number(),
            final(self).next_number() == old(self).next_number() + 1,
    {
        let number: u64 = self.next;
        self.next = number + 1;
        Brand { number }
    }
}

/// A standalone BVH.
#[derive(Debug)]
pub struct Bvh {
    device: Device,
    handle: usize,
    building: Option<Brand>,
    awaited: Stage,
}

/// Marker for a type that may live in the arena of a BVH: plain data, freed
/// without being dropped.
pub trait BvhNode: Copy + Send + Sync {

}

/// Opaque handle to a node in the arena of a build.
#[derive(Debug, Clone, Copy, PartialEq, Eq, Structural)]
pub struct NodePtr {
    address: usize,
    brand: Brand,
}

impl NodePtr {
    /// Where the node lies.
    pub closed spec fn at(self) -> usize {
        self.address
    }

    /// The build that the node belongs to.
    pub closed spec fn build(self) -> Brand {
        self.brand
    }
}

/// Hands out room in the arena of a build.
#[derive(Debug)]
pub struct Allocator {
    pub raw: usize,
    pub brand: Brand,
}

impl Allocator {
    /// The native call that makes room for one `T`, or `None` if the process is
    /// to be aborted: a type without size would put every node at one address.
    pub fn alloc_request<T>(&self) -> (r: Option<NativeCall>)
        ensures
            r == (if vstd::layout::size_of::<T>() == 0 {
                None
            } else {
                Some(
                    NativeCall::ThreadLocalAlloc {
                        allocator: self.raw,
                        bytes: vstd::layout::size_of::<T>() as usize,
                        align: vstd::layout::align_of::<T>() as usize,
                    },
                )
            }),
    {
        let bytes: usize = core::mem::size_of::<T>();
        if bytes == 0 {
            return None;
        }
        Some(
            NativeCall::ThreadLocalAlloc {
                allocator: self.raw,
                bytes,
                align: core::mem::align_of::<T>(),
            },
        )
    }

    /// The handle of the room that the native call returned, or `None` if the
    /// process is to be aborted: there was none left.
    pub fn alloc_node(&self, address: usize) -> (r: Option<NodePtr>)
        ensures
            match r {
                Some(p) => address != 0 && p.at() == address && p.build() == self.brand,
                None => address == 0,
            },
    {
        if address == 0 {
            None
        } else {
            Some(NodePtr { address, brand: self.brand })
        }
    }
}

/// The children of a node, given by their addresses.
#[derive(Debug)]
pub struct Children<'a> {
    pub ptrs: &'a [usize],
    pub brand: Brand,
}

impl<'a> Children<'a> {
    /// Number of children.
    pub fn len(&self) -> (n: usize)
        ensures
            n == self.ptrs@.len(),
    {
        self.ptrs.len()
    }

    /// Whether there are no children.
    pub fn is_empty(&self) -> (r: bool)
        ensures
            r == (self.ptrs@.len() == 0),
    {
        self.ptrs.len() == 0
    }

    /// The `i`th child handle, or `None` if out of range.
    pub fn get(&self, i: usize) -> (r: Option<NodePtr>)
        ensures
            match r {
                Some(p) => {
                    &&& i < self.ptrs@.len()
                    &&& self.ptrs@[i as int] != 0
                    &&& p.at() == self.ptrs@[i as int]
                    &&& p.build() == self.brand
                },
                None => i >= self.ptrs@.len() || self.ptrs@[i as int] == 0,
            },
    {
        if i >= self.ptrs.len() {
            return None;
        }
        let address: usize = self.ptrs[i];
        if address == 0 {
            None
        } else {
            Some(NodePtr { address, brand: self.brand })
        }
    }
}

/// The bounds of the children of a node.
#[derive(Debug)]
pub struct ChildBounds<'a> {
    pub bounds: &'a [Option<Bounds>],
}

impl<'a> ChildBounds<'a> {
    /// Number of children.
    pub fn len(&self) -> (n: usize)
        ensures
            n == self.bounds@.len(),
    {
        self.bounds.len()
    }

    /// Whether there are no children.
    pub fn is_empty(&self) -> (r: bool)
        ensures
            r == (self.bounds@.len() == 0),
    {
        self.bounds.len() == 0
    }

    /// The `i`th child's bounds, or `None` if out of range.
    pub fn get(&self, i: usize) -> (r: Option<&'a Bounds>)
        ensures
            match r {
                Some(b) => i < self.bounds@.len() && self.bounds@[i as int] == Some(*b),
                None => i >= self.bounds@.len() || self.bounds@[i as int] is None,
            },
    {
        if i >= self.bounds.len() {
            return None;
        }
        match &self.bounds[i] {
            Some(b) => Some(b),
            None => None,
        }
    }
}

/// The box of a primitive.
pub open spec fn primitive_bounds(p: BuildPrimitive) -> Bounds {
    Bounds {
        lower_x: p.lower_x,
        lower_y: p.lower_y,
        lower_z: p.lower_z,
        align0: REAL_ZERO,
        upper_x: p.upper_x,
        upper_y: p.upper_y,
        upper_z: p.upper_z,
        align1: REAL_ZERO,
    }
}

/// `b` with its upper end on axis `dim` moved to `pos`; the axes are counted from
/// 0, and every axis from 2 on is the third.
pub open spec fn with_upper(b: Bounds, dim: u32, pos: Real) -> Bounds {
    if dim == 0 {
        Bounds { upper_x: pos, ..b }
    } else if dim == 1 {
        Bounds { upper_y: pos, ..b }
    } else {
        Bounds { upper_z: pos, ..b }
    }
}

/// `b` with its lower end on axis `dim` moved to `pos`.
pub open spec fn with_lower(b: Bounds, dim: u32, pos: Real) -> Bounds {
    if dim == 0 {
        Bounds { lower_x: pos, ..b }
    } else if dim == 1 {
        Bounds { lower_y: pos, ..b }
    } else {
        Bounds { lower_z: pos, ..b }
    }
}

/// The box of a primitive.
pub fn bounds_of(p: &BuildPrimitive) -> (b: Bounds)
    ensures
        b == primitive_bounds(*p),
{
    Bounds {
        lower_x: p.lower_x,
        lower_y: p.lower_y,
        lower_z: p.lower_z,
        align0: REAL_ZERO,
        upper_x: p.upper_x,
        upper_y: p.upper_y,
        upper_z: p.upper_z,
        align1: REAL_ZERO,
    }
}

/// Moves the upper end of a box on one axis.
fn set_axis_upper(b: &mut Bounds, dim: u32, pos: Real)
    ensures
        *final(b) == with_upper(*old(b), dim, pos),
{
    match dim {
        0 => {
            b.upper_x = pos;
        },
        1 => {
            b.upper_y = pos;
        },
        _ => {
            b.upper_z = pos;
        },
    }
}

/// Moves the lower end of a box on one axis.
fn set_axis_lower(b: &mut Bounds, dim: u32, pos: Real)
    ensures
        *final(b) == with_lower(*old(b), dim, pos),
{
    match dim {
        0 => {
            b.lower_x = pos;
        },
        1 => {
            b.lower_y = pos;
        },
        _ => {
            b.lower_z = pos;
        },
    }
}

/// Cuts the box of a primitive at `pos` on axis `dim` into its two sides.
pub fn split_bounds(prim: &BuildPrimitive, dim: u32, pos: Real) -> (r: (Bounds, Bounds))
    ensures
        r.0 == with_upper(primitive_bounds(*prim), dim, pos),
        r.1 == with_lower(primitive_bounds(*prim), dim, pos),
{
    let mut lo = bounds_of(prim);
    let mut hi = lo;
    set_axis_upper(&mut lo, dim, pos);
    set_axis_lower(&mut hi, dim, pos);
    (lo, hi)
}

/// Materializes the shape of a tree in a node layout of the caller's own.
///
/// For each interior node, the native builder asks in this order: for the node
/// itself ([`create_node`](Self::create_node)), whose children do not exist yet;
/// and once they do, that their boxes ([`set_bounds`](Self::set_bounds)) and their
/// handles ([`set_children`](Self::set_children)) be stored in it. For each leaf
/// it asks for [`create_leaf`](Self::create_leaf). It asks from many threads.
pub trait BvhBuilder: Send + Sync {
    /// The node type.
    type Node: BvhNode;

    /// Maximum number of children an inner node can hold.
    const MAX_CHILDREN: usize;

    /// Whether primitives may be split across node boundaries.
    const SPATIAL_SPLITS: bool = false;

    /// Whether progress is reported.
    const PROGRESS: bool = false;

    /// An interior node that will have `child_count` children.
    fn create_node(&self, child_count: usize) -> Self::Node;

    /// Stores the handles of the children of `node` in it.
    fn set_children(&self, node: &mut Self::Node, children: Children<'_>);

    /// Stores the boxes of the children of `node` in it.
    fn set_bounds(&self, node: &mut Self::Node, bounds: ChildBounds<'_>);

    /// A leaf over `prims`, which are all of its primitives.
    fn create_leaf(&self, prims: &[BuildPrimitive]) -> Self::Node;

    /// Hears of the progress of a build: a number that advances toward 1, given
    /// by its double-precision bit pattern. Unless overridden, does nothing.
    fn progress(&self, _fraction: u64) {
    }

    /// Splits the box of a primitive by the plane `dim = pos` into its two sides.
    /// Unless overridden, the box is cut at the plane.
    fn split(&self, prim: &BuildPrimitive, dim: u32, pos: Real) -> (r: (Bounds, Bounds))
        default_ensures
            r.0 == with_upper(primitive_bounds(*prim), dim, pos),
            r.1 == with_lower(primitive_bounds(*prim), dim, pos),
    {
        split_bounds(prim, dim, pos)
    }
}

/// Build settings.
#[derive(Debug, Clone, Copy, PartialEq, Eq, Structural)]
pub struct BuildConfig {
    pub quality: BuildQuality,
    /// Optimize for fast rebuilds of dynamic scenes.
    pub dynamic: bool,
    pub max_branching_factor: u32,
    pub max_depth: u32,
    pub sah_block_size: u32,
    pub min_leaf_size: u32,
    pub max_leaf_size: u32,
    pub traversal_cost: Real,
    pub intersection_cost: Real,
}

/// The settings that a build starts from.
pub open spec fn default_config() -> BuildConfig {
    BuildConfig {
        quality: BuildQuality::MEDIUM,
        dynamic: false,
        max_branching_factor: 2,
        max_depth: 32,
        sah_block_size: 1,
        min_leaf_size: 1,
        max_leaf_size: 32,
        traversal_cost: REAL_ONE,
        intersection_cost: REAL_ONE,
    }
}

impl Default for BuildConfig {
    fn default() -> (c: Self)
        ensures
            c == default_config(),
    {
        BuildConfig {
            quality: BuildQuality::MEDIUM,
            dynamic: false,
            max_branching_factor: 2,
            max_depth: 32,
            sah_block_size: 1,
            min_leaf_size: 1,
            max_leaf_size: 32,
            traversal_cost: REAL_ONE,
            intersection_cost: REAL_ONE,
        }
    }
}

impl BuildConfig {
    /// The largest branching factor that the native builder supports.
    pub open spec fn branch_cap(self) -> int {
        if self.quality == BuildQuality::LOW {
            8
        } else {
            16
        }
    }

    /// Whether `prim_count` primitives can be built with these settings into
    /// nodes of up to `max_children` children.
    pub open spec fn is_valid(self, prim_count: nat, max_children: nat) -> bool {
        &&& self.quality != BuildQuality::REFIT
        &&& 2 <= self.max_branching_factor <= self.branch_cap()
        &&& self.max_branching_factor <= max_children
        &&& 1 <= self.min_leaf_size <= self.max_leaf_size <= 32
        &&& 1 <= self.sah_block_size
        &&& 1 <= self.max_depth
        &&& is_positive_finite(self.traversal_cost)
        &&& is_positive_finite(self.intersection_cost)
        &&& self.quality == BuildQuality::LOW ==> prim_count <= u32::MAX
    }

    /// How much room to reserve behind `count` primitives before a native build, or
    /// `None` if what is wanted cannot be counted.
    pub fn room_to_reserve<B: BvhBuilder>(&self, count: usize) -> (r: Option<usize>)
        ensures
            r == ({
                let wanted = wanted_capacity(*self, count as nat, B::SPATIAL_SPLITS);
                if wanted > usize::MAX {
                    None
                } else {
                    Some((wanted - count) as usize)
                }
            }),
    {
        if B::SPATIAL_SPLITS && self.quality == BuildQuality::HIGH {
            match count.checked_mul(2) {
                Some(wanted) => Some(wanted - count),
                None => None,
            }
        } else {
            Some(0)
        }
    }

    /// Checks the settings against a number of primitives and a node width.
    pub fn validate(&self, prim_count: usize, max_children: usize) -> (r: Result<(), Error>)
        ensures
            r == (if self.is_valid(prim_count as nat, max_children as nat) {
                Ok::<(), Error>(())
            } else {
                Err(Error::INVALID_ARGUMENT)
            }),
    {
        match self.quality {
            BuildQuality::LOW | BuildQuality::MEDIUM | BuildQuality::HIGH => {},
            _ => {
                return Err(Error::INVALID_ARGUMENT);
            },
        }
        let branch_cap: u32 = if self.quality == BuildQuality::LOW {
            8
        } else {
            16
        };
        if self.max_branching_factor < 2 || self.max_branching_factor > branch_cap
            || self.max_branching_factor as usize > max_children {
            return Err(Error::INVALID_ARGUMENT);
        }
        if self.max_leaf_size < 1 || self.max_leaf_size > 32 {
            return Err(Error::INVALID_ARGUMENT);
        }
        if self.min_leaf_size < 1 || self.min_leaf_size > self.max_leaf_size {
            return Err(Error::INVALID_ARGUMENT);
        }
        if self.sah_block_size < 1 || self.max_depth < 1 {
            return Err(Error::INVALID_ARGUMENT);
        }
        if !positive_finite(self.traversal_cost) || !positive_finite(self.intersection_cost) {
            return Err(Error::INVALID_ARGUMENT);
        }
        if self.quality == BuildQuality::LOW && prim_count > u32::MAX as usize {
            return Err(Error::INVALID_ARGUMENT);
        }
        Ok(())
    }
}

/// Result of a build.
#[derive(Debug)]
pub struct BvhResult {
    root: Option<NodePtr>,
    brand: Brand,
}

impl BvhResult {
    /// The root, if there is one, belongs to this build.
    #[verifier::type_invariant]
    spec fn root_is_own(self) -> bool {
        self.root matches Some(p) ==> p.brand == self.brand
    }

    /// The root handle, `None` for an empty tree.
    pub closed spec fn root_handle(&self) -> Option<NodePtr> {
        self.root
    }

    /// The build that this is the result of.
    pub closed spec fn build(&self) -> Brand {
        self.brand
    }

    /// Whether the arena of this build is still there: `bvh` is the one that was
    /// built, and it was not built anew.
    pub fn lives_in(&self, bvh: &Bvh) -> (r: bool)
        ensures
            r == (bvh.current() == Some(self.build())),
    {
        match bvh.building {
            Some(b) => b == self.brand,
            None => false,
        }
    }

    /// The address of the root node, or `None` for an empty tree (zero
    /// primitives).
    pub fn root(&self, bvh: &Bvh) -> (r: Option<usize>)
        requires
            bvh.current() == Some(self.build()),
        ensures
            r == (match self.root_handle() {
                Some(p) => Some(p.at()),
                None => None,
            }),
    {
        match self.root {
            Some(p) => Some(p.address),
            None => None,
        }
    }

    /// The root handle, which is one of this build.
    pub fn root_ptr(&self) -> (r: Option<NodePtr>)
        ensures
            r == self.root_handle(),
            r matches Some(p) ==> p.build() == self.build(),
    {
        proof {
            use_type_invariant(self);
        }
        self.root
    }

    /// Whether a handle is one of this build.
    pub fn owns(&self, p: NodePtr) -> (r: bool)
        ensures
            r == (p.build() == self.build()),
    {
        p.brand == self.brand
    }

    /// Resolves a handle of this build to the address of its node, in the arena
    /// of `bvh`.
    pub fn resolve(&self, bvh: &Bvh, p: NodePtr) -> (address: usize)
        requires
            bvh.current() == Some(self.build()),
            p.build() == self.build(),
        ensures
            address == p.at(),
    {
        p.address
    }
}

/// What the native library replied.
#[derive(Debug, Clone, Copy, PartialEq, Eq)]
pub enum BuildEvent {
    /// Nothing yet: the build begins.
    Start,
    /// The version of the native library, or the error that asking for it gave.
    Version(Result<isize, Error>),
    /// The address of the root, zero if there is none, and the device's error
    /// code after the build.
    Built { root: usize, error: Error },
}

/// What to do next.
#[derive(Debug)]
pub enum BuildAction {
    /// Ask for the version of the native library.
    AskVersion(NativeCall),
    /// Clear the device's error code, then build.
    Build { clear: NativeCall, build: NativeCall },
    /// The build is over.
    Done(Result<BvhResult, Error>),
}

/// The arguments of a native build.
pub open spec fn native_arguments(
    config: BuildConfig,
    bvh: usize,
    count: usize,
    capacity: usize,
    spatial_splits: bool,
    progress: bool,
) -> BuildArguments {
    BuildArguments {
        build_quality: config.quality,
        build_flags: if config.dynamic {
            BuildFlags::DYNAMIC
        } else {
            BuildFlags::NONE
        },
        max_branching_factor: config.max_branching_factor,
        max_depth: config.max_depth,
        sah_block_size: config.sah_block_size,
        min_leaf_size: config.min_leaf_size,
        max_leaf_size: config.max_leaf_size,
        traversal_cost: config.traversal_cost,
        intersection_cost: config.intersection_cost,
        bvh,
        primitive_count: count,
        primitive_array_capacity: capacity,
        split_primitive: spatial_splits,
        build_progress: progress,
    }
}

/// Room that the native builder is to have for primitives: as many again, where
/// they may be split.
pub open spec fn wanted_capacity(config: BuildConfig, count: nat, spatial_splits: bool) -> nat {
    if spatial_splits && config.quality == BuildQuality::HIGH {
        2 * count
    } else {
        count
    }
}

/// The number of elements that `v` has room for, from `Vec::capacity`. It is
/// never less than the number of elements; how much more is up to the allocator.
#[verifier::external_body]
fn capacity_of(v: &Vec<BuildPrimitive>) -> (n: usize)
    ensures
        n >= v@.len(),
{
    v.capacity()
}

/// What a build that has begun is answered before the native library is asked
/// anything.
pub open spec fn refused_at_start<B: BvhBuilder>(config: BuildConfig, count: nat) -> bool {
    !config.is_valid(count, B::MAX_CHILDREN as nat) || vstd::layout::size_of::<B::Node>() == 0
}

/// What a build is asked for: its settings, the number of primitives, and the width
/// and size of its nodes.
#[derive(Debug, Clone, Copy, PartialEq, Eq, Structural)]
pub struct Plan {
    pub config: BuildConfig,
    pub count: usize,
    pub max_children: usize,
    pub node_size: usize,
}

impl Plan {
    /// Whether the settings fit the primitives and the nodes, and the nodes have a
    /// size.
    pub open spec fn is_accepted(self) -> bool {
        self.config.is_valid(self.count as nat, self.max_children as nat) && self.node_size != 0
    }

    /// What a build of `count` primitives by `B` is asked for.
    pub open spec fn of<B: BvhBuilder>(config: BuildConfig, count: nat) -> Plan {
        Plan {
            config,
            count: count as usize,
            max_children: B::MAX_CHILDREN,
            node_size: vstd::layout::size_of::<B::Node>() as usize,
        }
    }
}

/// Which reply a BVH awaits.
#[derive(Debug, Clone, Copy, PartialEq, Eq, Structural)]
pub enum Stage {
    /// None: no build is going on.
    Idle,
    /// The version of the native library.
    AwaitsVersion { plan: Plan },
    /// The root. `version` is that of the native library.
    AwaitsRoot { plan: Plan, version: isize },
}

impl Stage {
    /// What is going on was accepted: the plan, and the version once it is known.
    pub open spec fn is_accepted(self) -> bool {
        match self {
            Stage::Idle => true,
            Stage::AwaitsVersion { plan } => plan.is_accepted(),
            Stage::AwaitsRoot { plan, version } => plan.is_accepted() && version == RTC_VERSION,
        }
    }

    /// Whether `event` is what is awaited, for the same plan. A build may begin at
    /// any time.
    pub open spec fn awaits(self, plan: Plan, event: BuildEvent) -> bool {
        match event {
            BuildEvent::Start => true,
            BuildEvent::Version(_) => self == (Stage::AwaitsVersion { plan }),
            BuildEvent::Built { .. } => self matches Stage::AwaitsRoot { plan: p, .. } && p == plan,
        }
    }

    /// What is awaited after `action`, the answer to `event`.
    pub open spec fn after(plan: Plan, event: BuildEvent, action: BuildAction) -> Stage {
        match action {
            BuildAction::AskVersion(_) => Stage::AwaitsVersion { plan },
            BuildAction::Build { .. } => match event {
                BuildEvent::Version(Ok(version)) => Stage::AwaitsRoot { plan, version },
                _ => Stage::Idle,
            },
            BuildAction::Done(_) => Stage::Idle,
        }
    }
}

/// What a build of `count` primitives does once it has an array with room for
/// `capacity` of them: it asks for the native build, unless there is less room
/// than wanted.
pub open spec fn with_room<B: BvhBuilder>(
    device: Device,
    bvh: usize,
    config: BuildConfig,
    count: usize,
    capacity: usize,
    action: BuildAction,
) -> bool {
    if capacity < wanted_capacity(config, count as nat, B::SPATIAL_SPLITS) {
        action matches BuildAction::Done(Err(e)) && e == Error::OUT_OF_MEMORY
    } else {
        action == (BuildAction::Build {
            clear: NativeCall::GetDeviceError { device: device.handle },
            build: NativeCall::BuildBVH {
                arguments: native_arguments(
                    config,
                    bvh,
                    count,
                    capacity,
                    B::SPATIAL_SPLITS,
                    B::PROGRESS,
                ),
            },
        })
    }
}

/// What a build of `primitives` with `brand` does on an event.
///
/// - At the start, the settings and the node type are checked.
/// - The version of the native library must be the one that the builder was
///   audited for.
/// - An empty set of primitives needs no native build.
/// - The array has room for all primitives, and for as many more as the allocator
///   gave it; [`with_room`] says what is done with that.
/// - A native build without a root failed, with an unknown error if the device
///   has none to report.
pub open spec fn build_step<B: BvhBuilder>(
    device: Device,
    bvh: usize,
    brand: Brand,
    config: BuildConfig,
    primitives: Seq<BuildPrimitive>,
    event: BuildEvent,
    action: BuildAction,
) -> bool {
    match event {
        BuildEvent::Start => if refused_at_start::<B>(config, primitives.len()) {
            action matches BuildAction::Done(Err(e)) && e == Error::INVALID_ARGUMENT
        } else {
            action matches BuildAction::AskVersion(call) && call == (
            NativeCall::GetDeviceVersion { device: device.handle })
        },
        BuildEvent::Version(Err(error)) => {
            action matches BuildAction::Done(Err(e)) && e == error
        },
        BuildEvent::Version(Ok(version)) => if version != RTC_VERSION {
            action matches BuildAction::Done(Err(e)) && e == Error::INVALID_OPERATION
        } else if primitives.len() == 0 {
            action matches BuildAction::Done(Ok(r)) && r.root_handle() is None && r.build()
                == brand
        } else if wanted_capacity(config, primitives.len(), B::SPATIAL_SPLITS) > usize::MAX {
            action matches BuildAction::Done(Err(e)) && e == Error::INVALID_ARGUMENT
        } else {
            exists|capacity: usize|
                capacity >= primitives.len() && #[trigger] with_room::<B>(
                    device,
                    bvh,
                    config,
                    primitives.len() as usize,
                    capacity,
                    action,
                )
        },
        BuildEvent::Built { root, error } => if root == 0 {
            action matches BuildAction::Done(Err(e)) && e == (if error == Error::NONE {
                Error::UNKNOWN
            } else {
                error
            })
        } else {
            &&& action matches BuildAction::Done(Ok(r))
            &&& r.build() == brand
            &&& r.root_handle() matches Some(p)
            &&& p.at() == root
            &&& p.build() == brand
        },
    }
}

/// `pre` took a build of `primitives` one step further, to `post`: the event was
/// awaited, the action is that of [`build_step`], and the reply to it is awaited.
/// A step that ends in an error leaves the BVH without a build.
pub open spec fn takes_step<B: BvhBuilder>(
    pre: Bvh,
    config: BuildConfig,
    primitives: Seq<BuildPrimitive>,
    event: BuildEvent,
    action: BuildAction,
    post: Bvh,
) -> bool {
    let plan = Plan::of::<B>(config, primitives.len());
    &&& pre.stage().awaits(plan, event)
    &&& build_step::<B>(
        pre.bvh_device(),
        pre.native(),
        post.current()->0,
        config,
        primitives,
        event,
        action,
    )
    &&& post.native() == pre.native()
    &&& post.bvh_device() == pre.bvh_device()
    &&& post.stage() == Stage::after(plan, event, action)
    &&& action matches BuildAction::Done(Err(_)) ==> post.current() is None
    &&& action !is Done || action->Done_0 is Ok ==> post.current() is Some && (event is Start
        || post.current() == pre.current())
}

/// A build of `bvh` began, and the counter went from `pre` to `post`.
pub open spec fn begins(pre: BuildCounter, post: BuildCounter, bvh: Bvh) -> bool {
    &&& bvh.current() matches Some(brand)
    &&& brand.build_number() == pre.next_number()
    &&& post.next_number() == pre.next_number() + 1
}

impl Bvh {
    /// The native handle of the BVH.
    pub closed spec fn native(&self) -> usize {
        self.handle
    }

    /// The device of the BVH.
    pub closed spec fn bvh_device(&self) -> Device {
        self.device
    }

    /// The brand of the build that was begun last, whose arena the BVH holds;
    /// `None` before the first, and after one that failed.
    pub closed spec fn current(&self) -> Option<Brand> {
        self.building
    }

    /// Which reply is awaited.
    pub closed spec fn stage(&self) -> Stage {
        self.awaited
    }

    #[verifier::type_invariant]
    spec fn wf(self) -> bool {
        &&& self.awaited.is_accepted()
        &&& self.awaited !is Idle ==> self.building is Some
    }

    /// The native call that creates a BVH.
    pub fn request(device: &Device) -> (call: NativeCall)
        ensures
            call == (NativeCall::NewBVH { device: device.handle }),
    {
        NativeCall::NewBVH { device: device.handle }
    }

    /// A new BVH. `handle` is what the native call of
    /// [`request`](Self::request) returned, zero if it failed, and `error` the
    /// device's error code after it.
    pub fn new(device: &Device, handle: usize, error: Error) -> (r: Result<Bvh, Error>)
        ensures
            match r {
                Ok(b) => {
                    &&& handle != 0
                    &&& b.native() == handle
                    &&& b.bvh_device() == *device
                    &&& b.current() is None
                    &&& b.stage() is Idle
                },
                Err(e) => handle == 0 && e == error,
            },
    {
        if handle == 0 {
            Err(error)
        } else {
            Ok(Bvh { device: *device, handle, building: None, awaited: Stage::Idle })
        }
    }

    /// The native call that gives the BVH, and the arena of its last build, up.
    pub fn release(self) -> (call: NativeCall)
        ensures
            call == (NativeCall::ReleaseBVH { bvh: self.native() }),
    {
        NativeCall::ReleaseBVH { bvh: self.handle }
    }

    /// The brand of the build that was begun last, or `None` before the first and
    /// after one that failed.
    pub fn brand(&self) -> (b: Option<Brand>)
        ensures
            b == self.current(),
    {
        self.building
    }

    /// The arguments of the native build of `count` primitives, in an array with
    /// room for `capacity`.
    pub fn build_arguments<B: BvhBuilder>(
        &self,
        config: &BuildConfig,
        count: usize,
        capacity: usize,
    ) -> (args: BuildArguments)
        ensures
            args == native_arguments(
                *config,
                self.native(),
                count,
                capacity,
                B::SPATIAL_SPLITS,
                B::PROGRESS,
            ),
    {
        BuildArguments {
            build_quality: config.quality,
            build_flags: if config.dynamic {
                BuildFlags::DYNAMIC
            } else {
                BuildFlags::NONE
            },
            max_branching_factor: config.max_branching_factor,
            max_depth: config.max_depth,
            sah_block_size: config.sah_block_size,
            min_leaf_size: config.min_leaf_size,
            max_leaf_size: config.max_leaf_size,
            traversal_cost: config.traversal_cost,
            intersection_cost: config.intersection_cost,
            bvh: self.handle,
            primitive_count: count,
            primitive_array_capacity: capacity,
            split_primitive: B::SPATIAL_SPLITS,
            build_progress: B::PROGRESS,
        }
    }

    /// Asks for the native build of `count` primitives, in an array with room for
    /// `capacity`.
    pub fn build_in<B: BvhBuilder>(
        &self,
        config: &BuildConfig,
        count: usize,
        capacity: usize,
    ) -> (action: BuildAction)
        ensures
            with_room::<B>(
                self.bvh_device(),
                self.native(),
                *config,
                count,
                capacity,
                action,
            ),
    {
        let enough: bool = if B::SPATIAL_SPLITS && config.quality == BuildQuality::HIGH {
            count <= capacity && capacity - count >= count
        } else {
            count <= capacity
        };
        if !enough {
            return BuildAction::Done(Err(Error::OUT_OF_MEMORY));
        }
        BuildAction::Build {
            clear: NativeCall::GetDeviceError { device: self.device.handle },
            build: NativeCall::BuildBVH {
                arguments: self.build_arguments::<B>(config, count, capacity),
            },
        }
    }

    /// What a build of `count` primitives by `B` is asked for.
    fn plan<B: BvhBuilder>(config: &BuildConfig, count: usize) -> (p: Plan)
        ensures
            p == Plan::of::<B>(*config, count as nat),
    {
        Plan {
            config: *config,
            count,
            max_children: B::MAX_CHILDREN,
            node_size: core::mem::size_of::<B::Node>(),
        }
    }

    /// Whether `event` is what is awaited of a build of `count` primitives by `B`.
    pub fn awaits<B: BvhBuilder>(
        &self,
        config: &BuildConfig,
        count: usize,
        event: BuildEvent,
    ) -> (r: bool)
        ensures
            r == self.stage().awaits(Plan::of::<B>(*config, count as nat), event),
    {
        let plan: Plan = Self::plan::<B>(config, count);
        match event {
            BuildEvent::Start => true,
            BuildEvent::Version(_) => match self.awaited {
                Stage::AwaitsVersion { plan: p } => p == plan,
                _ => false,
            },
            BuildEvent::Built { .. } => match self.awaited {
                Stage::AwaitsRoot { plan: p, .. } => p == plan,
                _ => false,
            },
        }
    }

    /// Takes a build of `primitives` one step further. The conversation begins
    /// with [`BuildEvent::Start`], which ends the life of the build before and, if
    /// the settings are accepted, takes a brand from `counter`. After that, each
    /// event is the reply to the action before, and the settings and the number of
    /// primitives stay the same.
    ///
    /// Where primitives may be split, room for as many again is reserved. How
    /// much room the array has in the end is up to the allocator, so it is looked
    /// at: the native builder is never told of less room than wanted.
    pub fn build_scoped<B: BvhBuilder>(
        &mut self,
        counter: &mut BuildCounter,
        config: &BuildConfig,
        primitives: &mut Vec<BuildPrimitive>,
        event: BuildEvent,
    ) -> (action: BuildAction)
        requires
            event is Start ==> old(counter).next_number() < u64::MAX,
            old(self).stage().awaits(Plan::of::<B>(*config, old(primitives)@.len()), event),
        ensures
            final(primitives)@ == old(primitives)@,
            takes_step::<B>(
                *old(self),
                *config,
                old(primitives)@,
                event,
                action,
                *final(self),
            ),
            if event is Start && action !is Done {
                begins(*old(counter), *final(counter), *final(self))
            } else {
                *final(counter) == *old(counter)
            },
            action matches BuildAction::Done(Ok(_)) ==> Plan::of::<B>(
                *config,
                old(primitives)@.len(),
            ).is_accepted(),
    {
        proof {
            use_type_invariant(&*self);
        }
        vstd::layout::layout_for_type_is_valid::<B::Node>();
        let plan: Plan = Self::plan::<B>(config, primitives.len());
        let (device, handle) = (self.device, self.handle);
        let brand: Brand = match event {
            BuildEvent::Start => {
                match Self::begin::<B>(&device, config, primitives.len()) {
                    Ok(call) => {
                        let fresh: Brand = counter.fresh();
                        *self = Bvh {
                            device,
                            handle,
                            building: Some(fresh),
                            awaited: Stage::AwaitsVersion { plan },
                        };
                        return BuildAction::AskVersion(call);
                    },
                    Err(e) => {
                        *self = Bvh { device, handle, building: None, awaited: Stage::Idle };
                        return BuildAction::Done(Err(e));
                    },
                }
            },
            _ => match self.building {
                Some(b) => b,
                None => vstd::pervasive::unreached(),
            },
        };
        let action = self.build_with_brand::<B>(brand, config, primitives, event);
        let (building, awaited): (Option<Brand>, Stage) = match &action {
            BuildAction::Build { .. } => match event {
                BuildEvent::Version(Ok(version)) => (
                    Some(brand),
                    Stage::AwaitsRoot { plan, version },
                ),
                _ => vstd::pervasive::unreached(),
            },
            BuildAction::Done(Ok(_)) => (Some(brand), Stage::Idle),
            BuildAction::Done(Err(_)) => (None, Stage::Idle),
            BuildAction::AskVersion(_) => vstd::pervasive::unreached(),
        };
        *self = Bvh { device, handle, building, awaited };
        action
    }

    /// Checks what a build is asked for, and asks for the version of the native
    /// library.
    fn begin<B: BvhBuilder>(device: &Device, config: &BuildConfig, count: usize) -> (r: Result<
        NativeCall,
        Error,
    >)
        ensures
            r == (if refused_at_start::<B>(*config, count as nat) {
                Err::<NativeCall, Error>(Error::INVALID_ARGUMENT)
            } else {
                Ok(NativeCall::GetDeviceVersion { device: device.handle })
            }),
    {
        match config.validate(count, B::MAX_CHILDREN) {
            Ok(()) => {},
            Err(e) => {
                return Err(e);
            },
        }
        if core::mem::size_of::<B::Node>() == 0 {
            return Err(Error::INVALID_ARGUMENT);
        }
        Ok(NativeCall::GetDeviceVersion { device: device.handle })
    }

    /// The steps of [`build_scoped`](Self::build_scoped) after the start, for a build
    /// with `brand`.
    fn build_with_brand<B: BvhBuilder>(
        &self,
        brand: Brand,
        config: &BuildConfig,
        primitives: &mut Vec<BuildPrimitive>,
        event: BuildEvent,
    ) -> (action: BuildAction)
        requires
            event !is Start,
        ensures
            final(primitives)@ == old(primitives)@,
            build_step::<B>(
                self.bvh_device(),
                self.native(),
                brand,
                *config,
                old(primitives)@,
                event,
                action,
            ),
    {
        match event {
            BuildEvent::Start => vstd::pervasive::unreached(),
            BuildEvent::Version(Err(e)) => BuildAction::Done(Err(e)),
            BuildEvent::Version(Ok(version)) => {
                if version != RTC_VERSION {
                    return BuildAction::Done(Err(Error::INVALID_OPERATION));
                }
                if primitives.is_empty() {
                    return BuildAction::Done(Ok(BvhResult { root: None, brand }));
                }
                let count: usize = primitives.len();
                match config.room_to_reserve::<B>(count) {
                    Some(more) => {
                        primitives.reserve(more);
                    },
                    None => {
                        return BuildAction::Done(Err(Error::INVALID_ARGUMENT));
                    },
                }
                let capacity: usize = capacity_of(primitives);
                let action = self.build_in::<B>(config, count, capacity);
                assert(with_room::<B>(
                    self.bvh_device(),
                    self.native(),
                    *config,
                    old(primitives)@.len() as usize,
                    capacity,
                    action,
                ));
                action
            },
            BuildEvent::Built { root, error } => {
                if root == 0 {
                    let e: Error = if error == Error::NONE {
                        Error::UNKNOWN
                    } else {
                        error
                    };
                    return BuildAction::Done(Err(e));
                }
                BuildAction::Done(
                    Ok(BvhResult { root: Some(NodePtr { address: root, brand }), brand }),
                )
            },
        }
    }
}

/// A node is never given more children than it can hold: settings that were
/// accepted keep the branching factor within the node's width.
pub proof fn lemma_children_fit(config: BuildConfig, prim_count: nat, max_children: nat)
    requires
        config.is_valid(prim_count, max_children),
    ensures
        config.max_branching_factor <= max_children,
        2 <= max_children,
{
}

/// A native build is told of at least the room wanted, and it is asked for wherever
/// there are primitives and none of them may be split.
pub proof fn lemma_build_has_its_room<B: BvhBuilder>(
    device: Device,
    bvh: usize,
    brand: Brand,
    config: BuildConfig,
    primitives: Seq<BuildPrimitive>,
    action: BuildAction,
)
    requires
        0 < primitives.len() <= usize::MAX,
        build_step::<B>(
            device,
            bvh,
            brand,
            config,
            primitives,
            BuildEvent::Version(Ok(RTC_VERSION)),
            action,
        ),
    ensures
        action matches BuildAction::Build { build, .. } ==> {
            &&& build matches NativeCall::BuildBVH { arguments }
            &&& arguments.primitive_count == primitives.len()
            &&& arguments.primitive_array_capacity >= wanted_capacity(
                config,
                primitives.len(),
                B::SPATIAL_SPLITS,
            )
        },
        !B::SPATIAL_SPLITS || config.quality != BuildQuality::HIGH ==> action is Build,
{
}

/// The default settings are accepted for every number of primitives and every
/// node of at least two children.
pub proof fn lemma_default_config_is_valid(prim_count: nat, max_children: nat)
    requires
        max_children >= 2,
    ensures
        default_config().is_valid(prim_count, max_children),
{
}

/// A tree comes only from a build that was accepted: at every step, what is awaited
/// was accepted if what was awaited before it was, as it is for a new BVH; and a
/// result is that of an accepted plan and of the version that the builder was
/// audited for.
pub proof fn lemma_results_come_from_accepted_builds<B: BvhBuilder>(
    pre: Bvh,
    config: BuildConfig,
    primitives: Seq<BuildPrimitive>,
    event: BuildEvent,
    action: BuildAction,
    post: Bvh,
)
    requires
        pre.stage().is_accepted(),
        primitives.len() <= usize::MAX,
        vstd::layout::size_of::<B::Node>() <= usize::MAX,
        takes_step::<B>(pre, config, primitives, event, action, post),
    ensures
        post.stage().is_accepted(),
        action matches BuildAction::Done(Ok(_)) ==> {
            &&& Plan::of::<B>(config, primitives.len()).is_accepted()
            &&& event == BuildEvent::Version(Ok(RTC_VERSION)) || (pre.stage()
                == Stage::AwaitsRoot {
                plan: Plan::of::<B>(config, primitives.len()),
                version: RTC_VERSION,
            } && event is Built)
        },
{
}

/// The replies come in order: a root is awaited only after the version was, and the
/// version only after a start, all three for the same settings, number of primitives
/// and nodes.
pub proof fn lemma_replies_come_in_order<B: BvhBuilder>(
    states: (Bvh, Bvh, Bvh, Bvh),
    configs: (BuildConfig, BuildConfig, BuildConfig),
    primitives: (Seq<BuildPrimitive>, Seq<BuildPrimitive>, Seq<BuildPrimitive>),
    events: (BuildEvent, BuildEvent, BuildEvent),
    actions: (BuildAction, BuildAction, BuildAction),
)
    requires
        primitives.0.len() <= usize::MAX,
        primitives.1.len() <= usize::MAX,
        primitives.2.len() <= usize::MAX,
        takes_step::<B>(states.0, configs.0, primitives.0, events.0, actions.0, states.1),
        takes_step::<B>(states.1, configs.1, primitives.1, events.1, actions.1, states.2),
        takes_step::<B>(states.2, configs.2, primitives.2, events.2, actions.2, states.3),
        events.2 is Built,
    ensures
        events.0 is Start,
        events.1 == BuildEvent::Version(Ok(RTC_VERSION)),
        actions.0 is AskVersion,
        actions.1 is Build,
        configs.0 == configs.1,
        configs.1 == configs.2,
        primitives.0.len() == primitives.1.len() == primitives.2.len(),
        states.1.current() == states.2.current(),
{
}

/// A handle of one build cannot be resolved against another. Of two builds that
/// take their brands from one counter, whichever BVHs they build and whatever
/// native handles these have, no handle of the one is a handle of the other, and
/// the result of neither lives in the BVH that the other built.
pub proof fn lemma_builds_have_brands_of_their_own(
    first_pre: BuildCounter,
    first_post: BuildCounter,
    first: Bvh,
    second_pre: BuildCounter,
    second_post: BuildCounter,
    second: Bvh,
)
    requires
        begins(first_pre, first_post, first),
        first_post.next_number() <= second_pre.next_number(),
        begins(second_pre, second_post, second),
    ensures
        first.current() != second.current(),
        forall|r: BvhResult, p: NodePtr|
            first.current() == Some(r.build()) && second.current() == Some(#[trigger] p.build())
                ==> p.build() != #[trigger] r.build(),
        forall|r: BvhResult, p: NodePtr|
            second.current() == Some(r.build()) && first.current() == Some(#[trigger] p.build())
                ==> p.build() != #[trigger] r.build(),
        forall|r: BvhResult|
            first.current() == Some(#[trigger] r.build()) ==> second.current() != Some(r.build()),
        forall|r: BvhResult|
            second.current() == Some(#[trigger] r.build()) ==> first.current() != Some(r.build()),
{
}

/// The two sides of a split meet at the plane and keep everything else of the
/// primitive's box.
pub proof fn lemma_split_meets_at_the_plane(p: BuildPrimitive, dim: u32, pos: Real)
    ensures
        ({
            let whole = primitive_bounds(p);
            let (lo, hi) = (with_upper(whole, dim, pos), with_lower(whole, dim, pos));
            &&& with_upper(lo, dim, if dim == 0 {
                whole.upper_x
            } else if dim == 1 {
                whole.upper_y
            } else {
                whole.upper_z
            }) == whole
            &&& with_lower(hi, dim, if dim == 0 {
                whole.lower_x
            } else if dim == 1 {
                whole.lower_y
            } else {
                whole.lower_z
            }) == whole
            &&& dim == 0 ==> lo.upper_x == pos && hi.lower_x == pos
            &&& dim == 1 ==> lo.upper_y == pos && hi.lower_y == pos
            &&& dim >= 2 ==> lo.upper_z == pos && hi.lower_z == pos
        }),
{
}

/// A native build is asked for with the caller's settings: each argument is the setting
/// of the same name. So a node is never handed more children than it holds: of the
/// branching factor that is passed on, the node type holds at least as many, and at
/// least two.
pub proof fn lemma_native_builds_have_the_callers_settings<B: BvhBuilder>(
    pre: Bvh,
    config: BuildConfig,
    primitives: Seq<BuildPrimitive>,
    event: BuildEvent,
    action: BuildAction,
    post: Bvh,
)
    requires
        pre.stage().is_accepted(),
        primitives.len() <= usize::MAX,
        takes_step::<B>(pre, config, primitives, event, action, post),
        action is Build,
    ensures
        event == BuildEvent::Version(Ok(31305)),
        primitives.len() > 0,
        action->clear == (NativeCall::GetDeviceError { device: pre.bvh_device().handle }),
        action->build is BuildBVH,
        ({
            let a = action->build->arguments;
            &&& a.build_quality == config.quality
            &&& a.build_flags is DYNAMIC <==> config.dynamic
            &&& a.max_branching_factor == config.max_branching_factor
            &&& a.max_depth == config.max_depth
            &&& a.sah_block_size == config.sah_block_size
            &&& a.min_leaf_size == config.min_leaf_size
            &&& a.max_leaf_size == config.max_leaf_size
            &&& a.traversal_cost == config.traversal_cost
            &&& a.intersection_cost == config.intersection_cost
            &&& a.bvh == pre.native()
            &&& a.primitive_count == primitives.len()
            &&& a.primitive_array_capacity >= primitives.len()
            &&& B::SPATIAL_SPLITS && config.quality is HIGH ==> a.primitive_array_capacity >= 2
                * primitives.len()
            &&& a.split_primitive == B::SPATIAL_SPLITS
            &&& a.build_progress == B::PROGRESS
            &&& 2 <= a.max_branching_factor <= B::MAX_CHILDREN
            &&& 1 <= a.min_leaf_size <= a.max_leaf_size <= 32
        }),
{
}

/// The arguments of a native build are the settings of the same names, whatever else it
/// is asked for with, and each depends on its own setting alone.
pub proof fn lemma_arguments_are_the_settings(
    config: BuildConfig,
    bvh: usize,
    count: usize,
    capacity: usize,
    spatial_splits: bool,
    progress: bool,
)
    ensures
        ({
            let a = native_arguments(config, bvh, count, capacity, spatial_splits, progress);
            &&& a.build_quality == config.quality
            &&& a.build_flags is DYNAMIC <==> config.dynamic
            &&& a.max_branching_factor == config.max_branching_factor
            &&& a.max_depth == config.max_depth
            &&& a.sah_block_size == config.sah_block_size
            &&& a.min_leaf_size == config.min_leaf_size
            &&& a.max_leaf_size == config.max_leaf_size
            &&& a.traversal_cost == config.traversal_cost
            &&& a.intersection_cost == config.intersection_cost
            &&& a.bvh == bvh
            &&& a.primitive_count == count
            &&& a.primitive_array_capacity == capacity
            &&& a.split_primitive == spatial_splits
            &&& a.build_progress == progress
        }),
{
}

/// Accepted settings stay accepted exactly as long as each setting stays within its own
/// range: at least two children and at most 8 for a low quality and 16 otherwise, never
/// more than a node holds; leaves of 1 to 32 primitives; at least one level and one block;
/// costs that are finite and positive.
pub proof fn lemma_each_setting_has_its_range(
    c: BuildConfig,
    prim_count: nat,
    max_children: nat,
    x: u32,
)
    requires
        c.is_valid(prim_count, max_children),
    ensures
        (BuildConfig { max_branching_factor: x, ..c }).is_valid(prim_count, max_children) <==> 2
            <= x
            <= max_children && x <= (if c.quality is LOW {
            8
        } else {
            16int
        }),
        (BuildConfig { max_depth: x, ..c }).is_valid(prim_count, max_children) <==> x >= 1,
        (BuildConfig { sah_block_size: x, ..c }).is_valid(prim_count, max_children) <==> x >= 1,
        (BuildConfig { min_leaf_size: x, ..c }).is_valid(prim_count, max_children) <==> 1 <= x
            <= c.max_leaf_size,
        (BuildConfig { max_leaf_size: x, ..c }).is_valid(prim_count, max_children)
            <==> c.min_leaf_size <= x <= 32,
        (BuildConfig { traversal_cost: x, ..c }).is_valid(prim_count, max_children) <==> 0 < x
            < 0x7f80_0000,
        (BuildConfig { intersection_cost: x, ..c }).is_valid(prim_count, max_children) <==> 0 < x
            < 0x7f80_0000,
        (BuildConfig { dynamic: !c.dynamic, ..c }).is_valid(prim_count, max_children),
        !(BuildConfig { quality: BuildQuality::REFIT, ..c }).is_valid(prim_count, max_children),
        c.quality is LOW || c.quality is MEDIUM || c.quality is HIGH,
{
}

/// How many primitives there are matters for a low quality alone, which counts them in
/// 32 bits; a wider node takes all that a narrower one does.
pub proof fn lemma_settings_and_sizes(
    c: BuildConfig,
    prim_count: nat,
    other_count: nat,
    max_children: nat,
    wider: nat,
)
    requires
        c.is_valid(prim_count, max_children),
        max_children <= wider,
    ensures
        c.is_valid(prim_count, wider),
        !(c.quality is LOW) ==> c.is_valid(other_count, max_children),
        c.quality is LOW ==> (c.is_valid(other_count, max_children) <==> other_count
            < 0x1_0000_0000),
        c.max_branching_factor <= max_children,
{
}

/// The settings that a build starts from: medium quality, static, binary nodes, at most
/// 32 levels, leaves of 1 to 32 primitives, blocks of one, and both costs one.
pub proof fn lemma_settings_to_start_from()
    ensures
        ({
            let c = default_config();
            &&& c.quality is MEDIUM && !c.dynamic
            &&& c.max_branching_factor == 2
            &&& c.max_depth == 32
            &&& c.sah_block_size == 1
            &&& c.min_leaf_size == 1
            &&& c.max_leaf_size == 32
            &&& c.traversal_cost == 0x3f80_0000
            &&& c.intersection_cost == 0x3f80_0000
        }),
{
}

/// Room for as many primitives again is wanted where they are split, at high quality, and
/// nowhere else.
pub proof fn lemma_room_is_doubled_for_splits(config: BuildConfig, count: nat)
    ensures
        wanted_capacity(config, count, false) == count,
        config.quality is HIGH ==> wanted_capacity(config, count, true) == count + count,
        !(config.quality is HIGH) ==> wanted_capacity(config, count, true) == count,
{
}

/// What a build is answered. Settings out of range, nodes that hold fewer children than
/// the branching factor, and nodes without a size are invalid arguments; another version
/// is an invalid operation, and the error of asking for it is passed on; nothing to build
/// gives an empty tree; a build without a root gives the device's error, or an unknown one;
/// a root gives a tree with that root.
pub proof fn lemma_answers_to_a_build<B: BvhBuilder>(
    device: Device,
    bvh: usize,
    brand: Brand,
    config: BuildConfig,
    primitives: Seq<BuildPrimitive>,
    event: BuildEvent,
    action: BuildAction,
)
    requires
        build_step::<B>(device, bvh, brand, config, primitives, event, action),
    ensures
        event is Start ==> {
            if config.is_valid(primitives.len(), B::MAX_CHILDREN as nat) && vstd::layout::size_of::<
                B::Node,
            >() > 0 {
                action is AskVersion && action->AskVersion_0 == (NativeCall::GetDeviceVersion {
                    device: device.handle,
                })
            } else {
                action is Done && action->Done_0 is Err && action->Done_0->Err_0
                    is INVALID_ARGUMENT
            }
        },
        event is Start && config.max_branching_factor > B::MAX_CHILDREN ==> action is Done,
        event matches BuildEvent::Version(Err(e)) ==> action is Done && action->Done_0 is Err
            && action->Done_0->Err_0 == e,
        event matches BuildEvent::Version(Ok(v)) ==> {
            &&& v != 31305 ==> action is Done && action->Done_0 is Err && action->Done_0->Err_0
                is INVALID_OPERATION
            &&& v == 31305 && primitives.len() == 0 ==> action is Done && action->Done_0 is Ok
                && action->Done_0->Ok_0.root_handle() is None && action->Done_0->Ok_0.build()
                == brand
            &&& v == 31305 && 0 < primitives.len() && 2 * primitives.len() <= usize::MAX
                && action is Done ==> action->Done_0 is Err && action->Done_0->Err_0
                is OUT_OF_MEMORY
            &&& v == 31305 && B::SPATIAL_SPLITS && config.quality is HIGH && 2 * primitives.len()
                > usize::MAX ==> action is Done && action->Done_0 is Err && action->Done_0->Err_0
                is INVALID_ARGUMENT
        },
        event matches BuildEvent::Built { root, error } ==> {
            &&& action is Done
            &&& root == 0 ==> action->Done_0 is Err && action->Done_0->Err_0 == (
            if error is NONE {
                Error::UNKNOWN
            } else {
                error
            })
            &&& root != 0 ==> action->Done_0 is Ok && action->Done_0->Ok_0.build() == brand
                && action->Done_0->Ok_0.root_handle() is Some
                && action->Done_0->Ok_0.root_handle()->Some_0.at() == root
                && action->Done_0->Ok_0.root_handle()->Some_0.build() == brand
        },
{
}

/// A tree comes only from settings that the nodes hold, for nodes that have a size, and
/// from the version that the builder was audited for.
pub proof fn lemma_trees_come_from_nodes_that_hold_them<B: BvhBuilder>(
    pre: Bvh,
    config: BuildConfig,
    primitives: Seq<BuildPrimitive>,
    event: BuildEvent,
    action: BuildAction,
    post: Bvh,
)
    requires
        pre.stage().is_accepted(),
        primitives.len() <= usize::MAX,
        vstd::layout::size_of::<B::Node>() <= usize::MAX,
        takes_step::<B>(pre, config, primitives, event, action, post),
        action is Done,
        action->Done_0 is Ok,
    ensures
        2 <= config.max_branching_factor <= B::MAX_CHILDREN,
        1 <= config.min_leaf_size <= config.max_leaf_size <= 32,
        !(config.quality is REFIT),
        vstd::layout::size_of::<B::Node>() > 0,
        event matches BuildEvent::Version(Ok(v)) ==> v == 31305,
        post.current() == Some(action->Done_0->Ok_0.build()),
        post.current() == pre.current(),
{
}

/// The box of a primitive is its own. Cut at `pos` on an axis, its lower side ends and its
/// upper side begins there, and both keep every other end of the box.
pub proof fn lemma_boxes_are_cut_on_one_axis(p: BuildPrimitive, dim: u32, pos: Real)
    ensures
        ({
            let lo = with_upper(primitive_bounds(p), dim, pos);
            let hi = with_lower(primitive_bounds(p), dim, pos);
            &&& lo.lower_x == p.lower_x && lo.lower_y == p.lower_y && lo.lower_z == p.lower_z
            &&& hi.upper_x == p.upper_x && hi.upper_y == p.upper_y && hi.upper_z == p.upper_z
            &&& lo.upper_x == (if dim == 0 {
                pos
            } else {
                p.upper_x
            })
            &&& lo.upper_y == (if dim == 1 {
                pos
            } else {
                p.upper_y
            })
            &&& lo.upper_z == (if dim >= 2 {
                pos
            } else {
                p.upper_z
            })
            &&& hi.lower_x == (if dim == 0 {
                pos
            } else {
                p.lower_x
            })
            &&& hi.lower_y == (if dim == 1 {
                pos
            } else {
                p.lower_y
            })
            &&& hi.lower_z == (if dim >= 2 {
                pos
            } else {
                p.lower_z
            })
        }),
        ({
            let b = primitive_bounds(p);
            &&& b.lower_x == p.lower_x && b.lower_y == p.lower_y && b.lower_z == p.lower_z
            &&& b.upper_x == p.upper_x && b.upper_y == p.upper_y && b.upper_z == p.upper_z
            &&& b.align0 == 0 && b.align1 == 0
        }),
{
}

/// The native arguments carry every setting of the configuration under its own name, the
/// tree they are for, and the primitives and the room for them.
pub proof fn lemma_arguments_carry_the_configuration<B: BvhBuilder>(
    bvh: &Bvh,
    config: &BuildConfig,
    count: usize,
    capacity: usize,
    args: BuildArguments,
)
    requires
        call_ensures(Bvh::build_arguments::<B>, (bvh, config, count, capacity), args),
    ensures
        args.max_branching_factor == config.max_branching_factor,
        args.max_depth == config.max_depth,
        args.sah_block_size == config.sah_block_size,
        args.min_leaf_size == config.min_leaf_size,
        args.max_leaf_size == config.max_leaf_size,
        args.traversal_cost == config.traversal_cost,
        args.intersection_cost == config.intersection_cost,
        args.build_quality == config.quality,
        args.build_flags == BuildFlags::DYNAMIC <==> config.dynamic,
        args.build_flags == BuildFlags::NONE <==> !config.dynamic,
        args.bvh == bvh.native(),
        args.primitive_count == count,
        args.primitive_array_capacity == capacity,
        args.split_primitive == B::SPATIAL_SPLITS,
        args.build_progress == B::PROGRESS,
{
}

/// A build is made wherever there is room: as many places as primitives, twice as many
/// where they may be split. It asks for the arguments of that build, after the
/// device's error was cleared; without the room there is no build.
pub proof fn lemma_builds_are_made_where_there_is_room<B: BvhBuilder>(
    bvh: &Bvh,
    config: &BuildConfig,
    count: usize,
    capacity: usize,
    action: BuildAction,
    args: BuildArguments,
)
    requires
        call_ensures(Bvh::build_in::<B>, (bvh, config, count, capacity), action),
        call_ensures(Bvh::build_arguments::<B>, (bvh, config, count, capacity), args),
    ensures
        ({
            let splits = B::SPATIAL_SPLITS && config.quality is HIGH;
            let room = if splits {
                2 * count <= capacity
            } else {
                count <= capacity
            };
            &&& room <==> action is Build
            &&& !room ==> {
                action matches BuildAction::Done(Err(e)) && e == Error::OUT_OF_MEMORY
            }
            &&& action matches BuildAction::Build { clear, build } ==> {
                &&& clear == (NativeCall::GetDeviceError { device: bvh.bvh_device().handle })
                &&& build == (NativeCall::BuildBVH { arguments: args })
            }
        }),
{
}

/// The room that is reserved beyond the primitives is as much again where they may be
/// split, and none otherwise; it is refused only where it cannot be counted.
pub proof fn lemma_room_is_reserved_for_splits<B: BvhBuilder>(
    config: &BuildConfig,
    count: usize,
    r: Option<usize>,
)
    requires
        call_ensures(BuildConfig::room_to_reserve::<B>, (config, count), r),
    ensures
        B::SPATIAL_SPLITS && config.quality is HIGH ==> {
            &&& r is None <==> 2 * count > usize::MAX
            &&& r matches Some(more) ==> more == count
        },
        !(B::SPATIAL_SPLITS && config.quality is HIGH) ==> r == Some(0usize),
{
}

/// A configuration is accepted exactly if its quality can be built with, a node can have
/// at least two children and no more than the quality and the nodes allow, a leaf holds
/// at most 32 primitives and no fewer than its minimum, the block size and the depth are
/// not zero, both costs are positive and finite, and a build of low quality has no more
/// primitives than it can number.
pub proof fn lemma_configurations_are_validated(
    c: &BuildConfig,
    count: usize,
    children: usize,
    r: Result<(), Error>,
)
    requires
        call_ensures(BuildConfig::validate, (c, count, children), r),
    ensures
        r is Ok <==> {
            &&& c.quality is LOW || c.quality is MEDIUM || c.quality is HIGH
            &&& 2 <= c.max_branching_factor && c.max_branching_factor <= children
            &&& c.max_branching_factor <= 8 || (c.max_branching_factor <= 16 && !(c.quality is LOW))
            &&& 1 <= c.min_leaf_size && c.min_leaf_size <= c.max_leaf_size
            &&& c.max_leaf_size <= 32
            &&& c.sah_block_size >= 1 && c.max_depth >= 1
            &&& 0 < c.traversal_cost && c.traversal_cost < 0x7f80_0000u32
            &&& 0 < c.intersection_cost && c.intersection_cost < 0x7f80_0000u32
            &&& c.quality is LOW ==> count <= 0xffff_ffff
        },
        r matches Err(e) ==> e == Error::INVALID_ARGUMENT,
{
    crate::sys::lemma_positive_finite_by_its_bits(c.traversal_cost);
    crate::sys::lemma_positive_finite_by_its_bits(c.intersection_cost);
}

/// The box of a primitive has the primitive's corners. Cut at `pos` on an axis, the one
/// side ends there and the other begins there; on the other two axes both are as wide
/// as the box.
pub proof fn lemma_boxes_are_cut_at_the_position(
    p: &BuildPrimitive,
    dim: u32,
    pos: Real,
    b: Bounds,
    r: (Bounds, Bounds),
)
    requires
        call_ensures(bounds_of, (p,), b),
        call_ensures(split_bounds, (p, dim, pos), r),
    ensures
        b.lower_x == p.lower_x && b.lower_y == p.lower_y && b.lower_z == p.lower_z,
        b.upper_x == p.upper_x && b.upper_y == p.upper_y && b.upper_z == p.upper_z,
        ({
            let (lo, hi) = r;
            &&& lo.lower_x == b.lower_x && lo.lower_y == b.lower_y && lo.lower_z == b.lower_z
            &&& hi.upper_x == b.upper_x && hi.upper_y == b.upper_y && hi.upper_z == b.upper_z
            &&& dim == 0 ==> lo.upper_x == pos && hi.lower_x == pos
            &&& dim != 0 ==> lo.upper_x == b.upper_x && hi.lower_x == b.lower_x
            &&& dim == 1 ==> lo.upper_y == pos && hi.lower_y == pos
            &&& dim != 1 ==> lo.upper_y == b.upper_y && hi.lower_y == b.lower_y
            &&& dim >= 2 ==> lo.upper_z == pos && hi.lower_z == pos
            &&& dim < 2 ==> lo.upper_z == b.upper_z && hi.lower_z == b.lower_z
        }),
{
}

/// Nodes are allocated by their size and alignment, unless they take no space; what is
/// allocated, and every child that is there, is found at its address and is of the
/// same build.
pub proof fn lemma_nodes_lie_where_they_were_allocated<T>(
    a: &Allocator,
    address: usize,
    request: Option<NativeCall>,
    node: Option<NodePtr>,
    children: &Children<'_>,
    i: usize,
    child: Option<NodePtr>,
)
    requires
        call_ensures(Allocator::alloc_request::<T>, (a,), request),
        call_ensures(Allocator::alloc_node, (a, address), node),
        call_ensures(Children::<'_>::get, (children, i), child),
    ensures
        request is Some <==> vstd::layout::size_of::<T>() > 0,
        request matches Some(call) ==> call == (NativeCall::ThreadLocalAlloc {
            allocator: a.raw,
            bytes: vstd::layout::size_of::<T>() as usize,
            align: vstd::layout::align_of::<T>() as usize,
        }),
        node is Some <==> address != 0,
        node matches Some(p) ==> p.at() == address && p.build() == a.brand,
        child is Some <==> i < children.ptrs@.len() && children.ptrs@[i as int] != 0,
        child matches Some(p) ==> p.at() == children.ptrs@[i as int] && p.build()
            == children.brand,
{
}

/// A tree is asked for of its device and has the handle that came back, no build and
/// nothing to wait for; without a handle there is only the device's error.
pub proof fn lemma_new_trees_wait_for_nothing(
    device: &Device,
    handle: usize,
    error: Error,
    request: NativeCall,
    r: Result<Bvh, Error>,
    bvh: Bvh,
    release: NativeCall,
)
    requires
        call_ensures(Bvh::request, (device,), request),
        call_ensures(Bvh::new, (device, handle, error), r),
        call_ensures(Bvh::release, (bvh,), release),
    ensures
        request == (NativeCall::NewBVH { device: device.handle }),
        r is Ok <==> handle != 0,
        r matches Err(e) ==> e == error,
        r matches Ok(b) ==> {
            &&& b.native() == handle
            &&& b.bvh_device() == *device
            &&& b.current() is None
            &&& b.stage() is Idle
        },
        release == (NativeCall::ReleaseBVH { bvh: bvh.native() }),
{
}

/// A build can be started at any time. After that it waits for the version, and after
/// the right one for the root, each of the same configuration and number of primitives;
/// nothing else is waited for.
pub proof fn lemma_builds_wait_in_order<B: BvhBuilder>(
    bvh: &Bvh,
    config: &BuildConfig,
    count: usize,
    event: BuildEvent,
    r: bool,
)
    requires
        call_ensures(Bvh::awaits::<B>, (bvh, config, count, event), r),
    ensures
        event is Start ==> r,
        event is Version ==> (r <==> {
            &&& bvh.stage() is AwaitsVersion
            &&& bvh.stage()->AwaitsVersion_plan.config == *config
            &&& bvh.stage()->AwaitsVersion_plan.count == count
            &&& bvh.stage()->AwaitsVersion_plan.max_children == B::MAX_CHILDREN
            &&& bvh.stage()->AwaitsVersion_plan.node_size == vstd::layout::size_of::<
                B::Node,
            >() as usize
        }),
        event is Built ==> (r <==> {
            &&& bvh.stage() is AwaitsRoot
            &&& bvh.stage()->AwaitsRoot_plan.config == *config
            &&& bvh.stage()->AwaitsRoot_plan.count == count
            &&& bvh.stage()->AwaitsRoot_plan.max_children == B::MAX_CHILDREN
            &&& bvh.stage()->AwaitsRoot_plan.node_size == vstd::layout::size_of::<
                B::Node,
            >() as usize
        }),
{
}

/// What a build comes to, step by step. A start that is refused ends it with an invalid
/// argument; one that is not asks the device for its version and takes a new number.
/// The version's error is the build's, another version than 3.13.5 cannot build. Without
/// primitives there is a tree without a root, and with them the native build is asked
/// for if there is room. The root that is built is the root of the tree; without one
/// the device's error ends the build, or an unknown one. The primitives stay.
pub proof fn lemma_builds_go_step_by_step<B: BvhBuilder>(
    bvh: &mut Bvh,
    counter: &mut BuildCounter,
    config: &BuildConfig,
    primitives: &mut Vec<BuildPrimitive>,
    event: BuildEvent,
    action: BuildAction,
)
    requires
        call_ensures(
            Bvh::build_scoped::<B>,
            (bvh, counter, config, primitives, event),
            action,
        ),
        old(primitives)@.len() <= usize::MAX,
    ensures
        final(primitives)@ == old(primitives)@,
        final(bvh).native() == old(bvh).native(),
        final(bvh).bvh_device() == old(bvh).bvh_device(),
        action matches BuildAction::Done(Err(_)) ==> final(bvh).current() is None,
        action is Done ==> final(bvh).stage() is Idle,
        event is Start ==> {
            &&& action is AskVersion || action is Done
            &&& action is AskVersion <==> config.is_valid(
                old(primitives)@.len(),
                B::MAX_CHILDREN as nat,
            ) && vstd::layout::size_of::<B::Node>() > 0
            &&& action matches BuildAction::Done(r) ==> {
                &&& r is Err && r->Err_0 == Error::INVALID_ARGUMENT
                &&& final(counter).next_number() == old(counter).next_number()
            }
            &&& action matches BuildAction::AskVersion(call) ==> {
                &&& call == (NativeCall::GetDeviceVersion { device: old(bvh).bvh_device().handle })
                &&& final(bvh).stage() is AwaitsVersion
                &&& final(bvh).current() is Some
                &&& final(bvh).current()->Some_0.build_number() == old(counter).next_number()
                &&& final(counter).next_number() == old(counter).next_number() + 1
            }
        },
        !(event is Start) ==> final(counter).next_number() == old(counter).next_number(),
        event matches BuildEvent::Version(v) ==> {
            &&& v is Err ==> {
                action matches BuildAction::Done(Err(e)) && e == v->Err_0
            }
            &&& v is Ok && v->Ok_0 != 31305 ==> {
                action matches BuildAction::Done(Err(e)) && e == Error::INVALID_OPERATION
            }
            &&& v is Ok && v->Ok_0 == 31305 ==> {
                &&& old(primitives)@.len() == 0 ==> {
                    action matches BuildAction::Done(Ok(r)) && r.root_handle() is None
                }
                &&& old(primitives)@.len() > 0 ==> {
                    ||| action is Build
                    ||| action matches BuildAction::Done(Err(e)) && (e == Error::OUT_OF_MEMORY || e
                        == Error::INVALID_ARGUMENT)
                }
                &&& old(primitives)@.len() > 0 && !(B::SPATIAL_SPLITS && config.quality is HIGH)
                    ==> action is Build
                &&& old(primitives)@.len() > 0 && 2 * old(primitives)@.len() <= usize::MAX
                    && action is Done ==> action->Done_0->Err_0 == Error::OUT_OF_MEMORY
                &&& action is Build ==> {
                    &&& final(bvh).stage() is AwaitsRoot
                    &&& final(bvh).stage()->version == 31305
                    &&& final(bvh).current() == old(bvh).current()
                    &&& action->build is BuildBVH
                    &&& action->build->BuildBVH_arguments.bvh == old(bvh).native()
                    &&& action->build->BuildBVH_arguments.primitive_count == old(primitives)@.len()
                }
            }
        },
        event matches BuildEvent::Built { root, error } ==> {
            &&& root == 0 ==> {
                &&& action matches BuildAction::Done(Err(e))
                &&& error == Error::NONE ==> e == Error::UNKNOWN
                &&& error != Error::NONE ==> e == error
            }
            &&& root != 0 ==> {
                &&& action matches BuildAction::Done(Ok(r))
                &&& r.root_handle() matches Some(p)
                &&& p.at() == root
                &&& final(bvh).current() == Some(r.build())
                &&& final(bvh).current() == old(bvh).current()
            }
        },
{
}

/// A tree is looked into while its build is the latest of its owner, and only nodes of
/// that build are its own; each is found where it lies.
pub proof fn lemma_trees_live_with_their_build(
    t: &BvhResult,
    bvh: &Bvh,
    p: NodePtr,
    lives: bool,
    root: Option<usize>,
    handle: Option<NodePtr>,
    owns: bool,
    address: usize,
)
    requires
        call_ensures(BvhResult::lives_in, (t, bvh), lives),
        call_ensures(BvhResult::root, (t, bvh), root),
        call_ensures(BvhResult::root_ptr, (t,), handle),
        call_ensures(BvhResult::owns, (t, p), owns),
        call_ensures(BvhResult::resolve, (t, bvh, p), address),
    ensures
        lives <==> bvh.current() is Some && bvh.current()->Some_0 == t.build(),
        root is Some <==> t.root_handle() is Some,
        root matches Some(at) ==> at == t.root_handle()->Some_0.at(),
        handle == t.root_handle(),
        handle matches Some(r) ==> r.build() == t.build(),
        owns <==> p.build() == t.build(),
        address == p.at(),
{
}

/// The settings to start from: medium quality, not dynamic, two children to a node, a
/// depth of 32, blocks of one primitive, leaves of one to 32, and both costs one.
pub proof fn lemma_configurations_start_from(
    c: BuildConfig,
    count: usize,
    children: usize,
    r: Result<(), Error>,
)
    requires
        call_ensures(<BuildConfig as Default>::default, (), c),
        call_ensures(BuildConfig::validate, (&c, count, children), r),
    ensures
        c.quality is MEDIUM && !c.dynamic,
        c.max_branching_factor == 2 && c.max_depth == 32 && c.sah_block_size == 1,
        c.min_leaf_size == 1 && c.max_leaf_size == 32,
        c.traversal_cost == 0x3f80_0000u32 && c.intersection_cost == 0x3f80_0000u32,
        r is Ok <==> children >= 2,
{
}

} // verus!
