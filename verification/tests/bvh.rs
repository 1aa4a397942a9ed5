//! The standalone BVH builder.

use std::cell::RefCell;
use std::collections::HashMap;

use embree3::bvh::{bounds_of, Brand};
use embree3::sys::{BuildFlags, RTC_VERSION};
use embree3::{
    Allocator, Bounds, BuildAction, BuildConfig, BuildCounter, BuildEvent, BuildPrimitive,
    BuildQuality, Bvh, BvhBuilder, BvhNode, BvhResult, ChildBounds, Children, Device, Error,
    NativeCall, NodePtr,
};

const DEVICE: Device = Device { handle: 3 };

#[derive(Clone, Copy)]
#[allow(dead_code)]
struct Scalar(u32);
impl BvhNode for Scalar {}

#[derive(Clone, Copy)]
struct ZstNode;
impl BvhNode for ZstNode {}

/// Room for more children than the native builder supports.
struct Wide;
impl BvhBuilder for Wide {
    type Node = Scalar;
    const MAX_CHILDREN: usize = 17;
    fn create_node(&self, _n: usize) -> Scalar {
        Scalar(0)
    }
    fn set_children(&self, _n: &mut Scalar, _c: Children<'_>) {}
    fn set_bounds(&self, _n: &mut Scalar, _b: ChildBounds<'_>) {}
    fn create_leaf(&self, _p: &[BuildPrimitive]) -> Scalar {
        Scalar(0)
    }
}

struct Narrow;
impl BvhBuilder for Narrow {
    type Node = Scalar;
    const MAX_CHILDREN: usize = 2;
    fn create_node(&self, _n: usize) -> Scalar {
        Scalar(0)
    }
    fn set_children(&self, _n: &mut Scalar, _c: Children<'_>) {}
    fn set_bounds(&self, _n: &mut Scalar, _b: ChildBounds<'_>) {}
    fn create_leaf(&self, _p: &[BuildPrimitive]) -> Scalar {
        Scalar(0)
    }
}

struct Zst;
impl BvhBuilder for Zst {
    type Node = ZstNode;
    const MAX_CHILDREN: usize = 2;
    fn create_node(&self, _n: usize) -> ZstNode {
        ZstNode
    }
    fn set_children(&self, _n: &mut ZstNode, _c: Children<'_>) {}
    fn set_bounds(&self, _n: &mut ZstNode, _b: ChildBounds<'_>) {}
    fn create_leaf(&self, _p: &[BuildPrimitive]) -> ZstNode {
        ZstNode
    }
}

/// A builder of binary trees that may split primitives and hears of progress.
struct Recorder;

#[derive(Clone, Copy)]
enum Node {
    Inner { bounds: [Bounds; 2], kids: [Option<NodePtr>; 2] },
    Leaf { prim_count: u32 },
}
impl BvhNode for Node {}

impl BvhBuilder for Recorder {
    type Node = Node;
    const MAX_CHILDREN: usize = 2;
    const SPATIAL_SPLITS: bool = true;
    const PROGRESS: bool = true;
    fn create_node(&self, _n: usize) -> Node {
        Node::Inner { bounds: [Bounds::zero(); 2], kids: [None; 2] }
    }
    fn set_children(&self, node: &mut Node, children: Children<'_>) {
        if let Node::Inner { kids, .. } = node {
            for i in 0..children.len().min(2) {
                kids[i] = children.get(i);
            }
        }
    }
    fn set_bounds(&self, node: &mut Node, child_bounds: ChildBounds<'_>) {
        if let Node::Inner { bounds, .. } = node {
            for i in 0..child_bounds.len().min(2) {
                if let Some(b) = child_bounds.get(i) {
                    bounds[i] = *b;
                }
            }
        }
    }
    fn create_leaf(&self, prims: &[BuildPrimitive]) -> Node {
        Node::Leaf { prim_count: prims.len() as u32 }
    }
}

fn prims(n: u32) -> Vec<BuildPrimitive> {
    (0..n)
        .map(|i| BuildPrimitive {
            lower_x: (i as f32).to_bits(),
            lower_y: 0.0f32.to_bits(),
            lower_z: 0.0f32.to_bits(),
            geomID: 0,
            upper_x: (i as f32 + 1.0).to_bits(),
            upper_y: 1.0f32.to_bits(),
            upper_z: 1.0f32.to_bits(),
            primID: i,
        })
        .collect()
}

fn new_bvh(handle: usize) -> Bvh {
    Bvh::new(&DEVICE, handle, Error::NONE).unwrap()
}

fn refused<B: BvhBuilder>(config: &BuildConfig) -> Option<Error> {
    let mut bvh = new_bvh(5);
    let mut p = prims(8);
    match bvh.build_scoped::<B>(&mut BuildCounter::new(), config, &mut p, BuildEvent::Start) {
        BuildAction::Done(Err(e)) => Some(e),
        _ => None,
    }
}

#[test]
fn rejects_invalid_configs_with_wide_builder() {
    let d = BuildConfig::default();
    let configs = [
        BuildConfig { quality: BuildQuality::REFIT, ..d },
        BuildConfig { max_branching_factor: 1, ..d },
        BuildConfig { max_branching_factor: 17, ..d },
        BuildConfig { quality: BuildQuality::LOW, max_branching_factor: 9, ..d },
        BuildConfig { max_leaf_size: 0, ..d },
        BuildConfig { max_leaf_size: 33, ..d },
        BuildConfig { min_leaf_size: 5, max_leaf_size: 4, ..d },
        BuildConfig { sah_block_size: 0, ..d },
        BuildConfig { max_depth: 0, ..d },
        BuildConfig { traversal_cost: f32::NAN.to_bits(), ..d },
        BuildConfig { traversal_cost: 0.0f32.to_bits(), ..d },
        BuildConfig { intersection_cost: (-1.0f32).to_bits(), ..d },
    ];
    for cfg in &configs {
        assert_eq!(refused::<Wide>(cfg), Some(Error::INVALID_ARGUMENT), "{cfg:?}");
    }
    assert_eq!(refused::<Wide>(&d), None);
}

#[test]
fn rejects_branching_above_max_children() {
    let cfg = BuildConfig { max_branching_factor: 3, ..Default::default() };
    assert_eq!(refused::<Narrow>(&cfg), Some(Error::INVALID_ARGUMENT));
    assert_eq!(refused::<Wide>(&cfg), None);
}

#[test]
fn rejects_zero_sized_node_type() {
    assert_eq!(refused::<Zst>(&BuildConfig::default()), Some(Error::INVALID_ARGUMENT));
}

#[test]
fn settings_on_the_border_are_accepted() {
    let d = BuildConfig::default();
    assert_eq!(BuildConfig { max_branching_factor: 16, ..d }.validate(8, 16), Ok(()));
    let low = BuildConfig { quality: BuildQuality::LOW, max_branching_factor: 8, ..d };
    assert_eq!(low.validate(u32::MAX as usize, 17), Ok(()));
    assert_eq!(low.validate(u32::MAX as usize + 1, 17), Err(Error::INVALID_ARGUMENT));
    assert_eq!(d.validate(u32::MAX as usize + 1, 17), Ok(()));
    assert_eq!(d.validate(0, 1), Err(Error::INVALID_ARGUMENT));
    let tiny = BuildConfig { traversal_cost: f32::MIN_POSITIVE.to_bits(), ..d };
    assert_eq!(tiny.validate(1, 2), Ok(()));
    let inf = BuildConfig { intersection_cost: f32::INFINITY.to_bits(), ..d };
    assert_eq!(inf.validate(1, 2), Err(Error::INVALID_ARGUMENT));
    let minus_zero = BuildConfig { traversal_cost: (-0.0f32).to_bits(), ..d };
    assert_eq!(minus_zero.validate(1, 2), Err(Error::INVALID_ARGUMENT));
    let no_leaf = BuildConfig { min_leaf_size: 0, ..d };
    assert_eq!(no_leaf.validate(1, 2), Err(Error::INVALID_ARGUMENT));
}

/// Memory of a pretended native builder: nodes by address.
struct Arena {
    nodes: RefCell<HashMap<usize, Node>>,
}

impl Arena {
    fn place(&self, allocator: &Allocator, node: Node) -> usize {
        assert!(matches!(
            allocator.alloc_request::<Node>(),
            Some(NativeCall::ThreadLocalAlloc { bytes, .. }) if bytes == std::mem::size_of::<Node>()
        ));
        let address = 0x1000 + 64 * self.nodes.borrow().len();
        assert!(allocator.alloc_node(address).is_some());
        self.nodes.borrow_mut().insert(address, node);
        address
    }

    /// Builds a binary tree with one primitive per leaf.
    fn build(&self, brand: Brand, prims: &[BuildPrimitive]) -> usize {
        let allocator = Allocator { raw: 1, brand };
        if prims.len() == 1 {
            return self.place(&allocator, Recorder.create_leaf(prims));
        }
        let (left, right) = prims.split_at(prims.len() / 2);
        let node = Recorder.create_node(2);
        let address = self.place(&allocator, node);
        let kids = [self.build(brand, left), self.build(brand, right)];
        let boxes = [Some(bounds_of(&left[0])), Some(bounds_of(&right[0]))];
        let mut node = self.nodes.borrow()[&address];
        Recorder.set_bounds(&mut node, ChildBounds { bounds: &boxes });
        Recorder.set_children(&mut node, Children { ptrs: &kids, brand });
        self.nodes.borrow_mut().insert(address, node);
        address
    }

    /// Counts the primitives of all leaves, by way of the handles.
    fn sum(&self, bvh: &Bvh, result: &BvhResult, p: NodePtr) -> u32 {
        assert!(result.lives_in(bvh) && result.owns(p));
        let node = self.nodes.borrow()[&result.resolve(bvh, p)];
        match node {
            Node::Leaf { prim_count } => prim_count,
            Node::Inner { kids, bounds } => {
                assert_ne!(bounds[1], Bounds::zero());
                kids.iter().flatten().map(|k| self.sum(bvh, result, *k)).sum()
            }
        }
    }
}

#[test]
fn build_covers_all_primitives_via_navigation() {
    let mut bvh = new_bvh(5);
    let mut counter = BuildCounter::new();
    let mut prims = prims(64);
    let cfg = BuildConfig::default();
    let mut step = |bvh: &mut Bvh, prims: &mut Vec<BuildPrimitive>, event| {
        bvh.build_scoped::<Recorder>(&mut counter, &cfg, prims, event)
    };

    let action = step(&mut bvh, &mut prims, BuildEvent::Start);
    assert!(matches!(
        action,
        BuildAction::AskVersion(NativeCall::GetDeviceVersion { device: 3 })
    ));
    let action = step(&mut bvh, &mut prims, BuildEvent::Version(Ok(RTC_VERSION)));
    let arguments = match action {
        BuildAction::Build {
            clear: NativeCall::GetDeviceError { device: 3 },
            build: NativeCall::BuildBVH { arguments },
        } => arguments,
        other => panic!("expected a build, got {other:?}"),
    };
    assert_eq!(arguments.primitive_count, 64);
    assert!(arguments.primitive_array_capacity >= 64);
    assert_eq!(arguments.bvh, 5);
    assert_eq!(arguments.build_flags, BuildFlags::NONE);
    assert!(arguments.split_primitive && arguments.build_progress);

    let arena = Arena { nodes: RefCell::new(HashMap::new()) };
    let root = arena.build(bvh.brand().unwrap(), &prims);
    let reply = BuildEvent::Built { root, error: Error::NONE };
    let result = match step(&mut bvh, &mut prims, reply) {
        BuildAction::Done(Ok(r)) => r,
        other => panic!("expected a result, got {other:?}"),
    };
    assert_eq!(result.root(&bvh), Some(root));
    let covered = result.root_ptr().map(|p| arena.sum(&bvh, &result, p)).unwrap_or(0);
    assert_eq!(covered, 64, "every primitive must reach a leaf");
}

fn second_step<B: BvhBuilder>(config: &BuildConfig, n: u32, event: BuildEvent) -> BuildAction {
    let mut bvh = new_bvh(5);
    begin_and_step::<B>(&mut bvh, &mut BuildCounter::new(), config, n, event)
}

/// Begins a build, and then tells it of an event; of the right version first, if the
/// event is the end of the native build.
fn begin_and_step<B: BvhBuilder>(
    bvh: &mut Bvh,
    counter: &mut BuildCounter,
    config: &BuildConfig,
    n: u32,
    event: BuildEvent,
) -> BuildAction {
    let mut p = prims(n);
    let _ = bvh.build_scoped::<B>(counter, config, &mut p, BuildEvent::Start);
    if let BuildEvent::Built { .. } = event {
        let version = BuildEvent::Version(Ok(RTC_VERSION));
        let action = bvh.build_scoped::<B>(counter, config, &mut p, version);
        assert!(matches!(action, BuildAction::Build { .. }));
    }
    assert!(bvh.awaits::<B>(config, p.len(), event));
    let action = bvh.build_scoped::<B>(counter, config, &mut p, event);
    assert_eq!(p, prims(n));
    action
}

/// The result of a build of one primitive whose root lies at `root`.
fn built(bvh: &mut Bvh, counter: &mut BuildCounter, root: usize) -> BvhResult {
    let reply = BuildEvent::Built { root, error: Error::NONE };
    match begin_and_step::<Narrow>(bvh, counter, &BuildConfig::default(), 1, reply) {
        BuildAction::Done(Ok(r)) => r,
        other => panic!("expected a result, got {other:?}"),
    }
}

#[test]
fn another_version_is_refused() {
    let d = BuildConfig::default();
    assert!(matches!(
        second_step::<Wide>(&d, 8, BuildEvent::Version(Ok(31304))),
        BuildAction::Done(Err(Error::INVALID_OPERATION))
    ));
    assert!(matches!(
        second_step::<Wide>(&d, 8, BuildEvent::Version(Err(Error::CANCELLED))),
        BuildAction::Done(Err(Error::CANCELLED))
    ));
}

#[test]
fn nothing_to_build_gives_an_empty_tree() {
    let d = BuildConfig::default();
    let mut bvh = new_bvh(5);
    let mut counter = BuildCounter::new();
    let version = BuildEvent::Version(Ok(RTC_VERSION));
    match begin_and_step::<Wide>(&mut bvh, &mut counter, &d, 0, version) {
        BuildAction::Done(Ok(r)) => {
            assert!(r.lives_in(&bvh));
            assert_eq!(r.root(&bvh), None);
            assert!(r.root_ptr().is_none());
        }
        other => panic!("expected an empty tree, got {other:?}"),
    }
}

#[test]
fn splits_get_room_for_as_many_again() {
    let cfg = BuildConfig { quality: BuildQuality::HIGH, dynamic: true, ..Default::default() };
    match second_step::<Recorder>(&cfg, 8, BuildEvent::Version(Ok(RTC_VERSION))) {
        BuildAction::Build { build: NativeCall::BuildBVH { arguments }, .. } => {
            assert_eq!(arguments.primitive_count, 8);
            assert!(arguments.primitive_array_capacity >= 16);
            assert_eq!(arguments.build_flags, BuildFlags::DYNAMIC);
        }
        other => panic!("expected a build, got {other:?}"),
    }
}

#[test]
fn a_build_without_a_root_failed() {
    let d = BuildConfig::default();
    let failed = |error| second_step::<Wide>(&d, 8, BuildEvent::Built { root: 0, error });
    assert!(matches!(
        failed(Error::OUT_OF_MEMORY),
        BuildAction::Done(Err(Error::OUT_OF_MEMORY))
    ));
    assert!(matches!(failed(Error::NONE), BuildAction::Done(Err(Error::UNKNOWN))));
}

#[test]
fn replies_are_awaited_in_order() {
    let d = BuildConfig::default();
    let version = BuildEvent::Version(Ok(RTC_VERSION));
    let root = BuildEvent::Built { root: 64, error: Error::NONE };
    let awaited = |bvh: &Bvh| {
        (bvh.awaits::<Wide>(&d, 8, version), bvh.awaits::<Wide>(&d, 8, root))
    };
    let mut bvh = new_bvh(5);
    let mut counter = BuildCounter::new();
    let mut p = prims(8);
    assert_eq!(awaited(&bvh), (false, false));
    assert!(bvh.awaits::<Wide>(&d, 8, BuildEvent::Start));

    let bad = BuildConfig { max_depth: 0, ..d };
    let _ = bvh.build_scoped::<Wide>(&mut counter, &bad, &mut p, BuildEvent::Start);
    assert_eq!(awaited(&bvh), (false, false));
    assert!(!bvh.awaits::<Wide>(&bad, 8, version));
    assert_eq!(bvh.brand(), None);

    let _ = bvh.build_scoped::<Wide>(&mut counter, &d, &mut p, BuildEvent::Start);
    assert_eq!(awaited(&bvh), (true, false));
    // For other settings, another number of primitives or other nodes it is not.
    assert!(!bvh.awaits::<Wide>(&BuildConfig { max_depth: 9, ..d }, 8, version));
    assert!(!bvh.awaits::<Wide>(&d, 7, version));
    assert!(!bvh.awaits::<Narrow>(&d, 8, version));

    let _ = bvh.build_scoped::<Wide>(&mut counter, &d, &mut p, version);
    assert_eq!(awaited(&bvh), (false, true));
    let action = bvh.build_scoped::<Wide>(&mut counter, &d, &mut p, root);
    assert!(matches!(action, BuildAction::Done(Ok(_))));
    assert_eq!(awaited(&bvh), (false, false));
    assert!(bvh.brand().is_some());
}

#[test]
fn room_is_reserved_for_splits() {
    let medium = BuildConfig::default();
    let high = BuildConfig { quality: BuildQuality::HIGH, ..medium };
    assert_eq!(high.room_to_reserve::<Recorder>(8), Some(8));
    assert_eq!(high.room_to_reserve::<Recorder>(usize::MAX / 2), Some(usize::MAX / 2));
    assert_eq!(high.room_to_reserve::<Recorder>(usize::MAX / 2 + 1), None);
    assert_eq!(high.room_to_reserve::<Wide>(8), Some(0));
    assert_eq!(medium.room_to_reserve::<Recorder>(usize::MAX), Some(0));
}

#[test]
fn the_room_of_the_array_decides() {
    let bvh = new_bvh(5);
    let high = BuildConfig { quality: BuildQuality::HIGH, ..Default::default() };
    let capacity_given = |action| match action {
        BuildAction::Build {
            clear: NativeCall::GetDeviceError { device: 3 },
            build: NativeCall::BuildBVH { arguments },
        } => {
            assert_eq!((arguments.bvh, arguments.primitive_count), (5, 8));
            Some(arguments.primitive_array_capacity)
        }
        BuildAction::Done(Err(Error::OUT_OF_MEMORY)) => None,
        other => panic!("unexpected {other:?}"),
    };
    assert_eq!(capacity_given(bvh.build_in::<Recorder>(&high, 8, 16)), Some(16));
    assert_eq!(capacity_given(bvh.build_in::<Recorder>(&high, 8, 15)), None);
    assert_eq!(capacity_given(bvh.build_in::<Wide>(&high, 8, 8)), Some(8));
    assert_eq!(capacity_given(bvh.build_in::<Wide>(&high, 8, 7)), None);
    let medium = BuildConfig::default();
    assert_eq!(capacity_given(bvh.build_in::<Recorder>(&medium, 8, 9)), Some(9));
}

#[test]
fn every_build_has_a_brand_of_its_own() {
    let mut counter = BuildCounter::new();
    assert!(counter.has_room());
    let mut bvh = new_bvh(5);
    assert_eq!(bvh.brand(), None);
    let first = built(&mut bvh, &mut counter, 64);
    let handle = first.root_ptr().unwrap();
    assert!(first.lives_in(&bvh) && first.owns(handle));
    assert_eq!(first.resolve(&bvh, handle), 64);
    // Building anew ends the life of the first build, at the same address or not.
    let second = built(&mut bvh, &mut counter, 64);
    assert!(!first.lives_in(&bvh) && second.lives_in(&bvh));
    assert!(!second.owns(handle) && !first.owns(second.root_ptr().unwrap()));
}

#[test]
fn a_native_handle_that_comes_again_is_another_bvh() {
    let mut counter = BuildCounter::new();
    let mut a = new_bvh(5);
    let first = built(&mut a, &mut counter, 64);
    let handle = first.root_ptr().unwrap();
    assert_eq!(a.release(), NativeCall::ReleaseBVH { bvh: 5 });
    let mut b = new_bvh(5);
    assert!(!first.lives_in(&b));
    let second = built(&mut b, &mut counter, 64);
    assert!(!first.lives_in(&b) && !second.owns(handle));
}

#[test]
fn a_bvh_is_created_and_released() {
    assert_eq!(Bvh::request(&DEVICE), NativeCall::NewBVH { device: 3 });
    assert_eq!(Bvh::new(&DEVICE, 0, Error::UNKNOWN).err(), Some(Error::UNKNOWN));
    assert_eq!(new_bvh(5).release(), NativeCall::ReleaseBVH { bvh: 5 });
}

#[test]
fn a_split_cuts_the_box_at_the_plane() {
    let p = prims(1)[0];
    let half = 0.5f32.to_bits();
    let whole = bounds_of(&p);
    let x = Wide.split(&p, 0, half);
    assert_eq!(x, (Bounds { upper_x: half, ..whole }, Bounds { lower_x: half, ..whole }));
    let y = Wide.split(&p, 1, half);
    assert_eq!(y, (Bounds { upper_y: half, ..whole }, Bounds { lower_y: half, ..whole }));
    let z = Wide.split(&p, 2, half);
    assert_eq!(z, (Bounds { upper_z: half, ..whole }, Bounds { lower_z: half, ..whole }));
    Wide.progress(0.5f64.to_bits());
}

#[test]
fn arrays_of_children_are_checked() {
    let mut bvh = new_bvh(5);
    let _ = built(&mut bvh, &mut BuildCounter::new(), 64);
    let brand = bvh.brand().unwrap();
    let c = Children { ptrs: &[64, 0], brand };
    assert_eq!((c.len(), c.is_empty()), (2, false));
    assert!(c.get(0).is_some());
    assert!(c.get(1).is_none());
    assert!(c.get(2).is_none());
    let b = ChildBounds { bounds: &[Some(Bounds::zero()), None] };
    assert_eq!((b.len(), b.is_empty()), (2, false));
    assert_eq!(b.get(0), Some(&Bounds::zero()));
    assert!(b.get(1).is_none() && b.get(2).is_none());
    let allocator = Allocator { raw: 9, brand };
    assert!(allocator.alloc_request::<ZstNode>().is_none());
    assert!(allocator.alloc_node(0).is_none());
    assert_eq!(
        allocator.alloc_request::<u64>(),
        Some(NativeCall::ThreadLocalAlloc { allocator: 9, bytes: 8, align: 8 })
    );
}
