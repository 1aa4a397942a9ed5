//! Scenes: ray queries, point queries, collision. The tests stand in for the
//! native library.

use embree3::scene::{lane_data, lane_tokens};
use embree3::{
    Bounds, BuildQuality, Device, Error, Geometry, GeometryBuilder, GeometryKind, GeometryStore,
    LinearBounds, NativeCall, Ray, Ray4, Ray8, RayHit, RayHit16, RayHit4, Scene, SoAHit, SoARay,
    ValidMask, ValidMaskN,
};

type Store = GeometryStore<'static, (), ()>;

const DEVICE: Device = Device { handle: 7 };

fn new_scene(device: Device, handle: usize) -> Scene<u32> {
    Scene::new(device, handle, Error::NONE).unwrap()
}

fn geometry(store: &mut Store, kind: GeometryKind, handle: usize) -> Geometry {
    let (b, _): (GeometryBuilder<'static, (), ()>, _) = Geometry::new(&DEVICE, kind, handle);
    b.commit(store).0
}

fn bits3(v: [f32; 3]) -> [u32; 3] {
    [v[0].to_bits(), v[1].to_bits(), v[2].to_bits()]
}

/// Four rays that hit the triangle with geometry ID 0, each on its own.
fn four_hitting_rays() -> Ray4 {
    Ray4::new([bits3([0.25, 0.25, -1.0]); 4], [bits3([0.0, 0.0, 1.0]); 4])
}

#[test]
fn intersect4_skips_disabled_lane() {
    let scene = new_scene(DEVICE, 31);
    let mut rh = RayHit4::new(four_hitting_rays());
    let mut valid = ValidMaskN::all_active();
    valid.lanes_mut()[3] = ValidMask::Invalid;

    let (call, mask) = scene.intersect4(&valid);
    assert_eq!(call, NativeCall::IntersectPacket { scene: 31, width: 4 });
    for i in 0..4 {
        if mask[i] == -1 {
            rh.hit.set_geom_id(i, 0);
        }
    }
    for i in 0..3 {
        assert!(rh.hit.is_valid(i), "active lane {i} must hit the triangle");
        assert_eq!(rh.hit.geomID[i], 0);
    }
    assert!(!rh.hit.is_valid(3), "disabled lane 3 must be left untouched");
}

#[test]
fn occluded4_skips_disabled_lane() {
    let scene = new_scene(DEVICE, 31);
    let mut ray4 = four_hitting_rays();
    let mut valid = ValidMaskN::all_active();
    valid.lanes_mut()[3] = ValidMask::Invalid;

    let (call, mask) = scene.occluded4(&valid);
    assert_eq!(call, NativeCall::OccludedPacket { scene: 31, width: 4 });
    for i in 0..4 {
        if mask[i] == -1 {
            ray4.set_tfar(i, f32::NEG_INFINITY.to_bits());
        }
    }
    for i in 0..3 {
        assert_eq!(ray4.tfar[i], f32::NEG_INFINITY.to_bits());
    }
    assert_ne!(ray4.tfar[3], f32::NEG_INFINITY.to_bits());
}

#[test]
fn point_query4_routes_per_lane_data_and_honours_valid() {
    let scene = new_scene(DEVICE, 31);
    let x = [0.25f32, 100.0, 0.5, 0.25];
    let mut valid = ValidMaskN::all_active();
    valid.lanes_mut()[3] = ValidMask::Invalid;
    const SENTINEL: f32 = -42.0;
    let mut seen_x: [f32; 4] = [SENTINEL; 4];

    let (call, mask) = scene.point_query4(&valid);
    assert_eq!(call, NativeCall::PointQueryN { scene: 31, width: 4 });
    let tokens: [usize; 4] = lane_tokens();
    // The far lane is not visited.
    for lane in [0, 2, 3] {
        if mask[lane] != 0 {
            *lane_data(&mut seen_x, tokens[lane]) = x[lane];
        }
    }
    assert_eq!(seen_x[0], 0.25, "lane 0 must receive its own query (x=0.25)");
    assert_eq!(seen_x[2], 0.5, "lane 2 must receive its own query (x=0.5)");
    assert_eq!(seen_x[3], SENTINEL, "inactive lane 3 must never be invoked");
    assert!(seen_x[1] == SENTINEL || seen_x[1] == 100.0);
}

#[test]
fn wider_packets_go_to_wider_calls() {
    let scene = new_scene(DEVICE, 31);
    let m8 = ValidMaskN::<8>::all_active();
    let m16 = ValidMaskN::<16>::all_active();
    assert_eq!(
        scene.intersect8(&m8),
        (NativeCall::IntersectPacket { scene: 31, width: 8 }, [-1; 8])
    );
    assert_eq!(
        scene.intersect16(&m16),
        (NativeCall::IntersectPacket { scene: 31, width: 16 }, [-1; 16])
    );
    assert_eq!(scene.occluded8(&m8).0, NativeCall::OccludedPacket { scene: 31, width: 8 });
    assert_eq!(scene.occluded16(&m16).0, NativeCall::OccludedPacket { scene: 31, width: 16 });
    assert_eq!(scene.point_query8(&m8).0, NativeCall::PointQueryN { scene: 31, width: 8 });
    assert_eq!(scene.point_query16(&m16).0, NativeCall::PointQueryN { scene: 31, width: 16 });
    assert_eq!(scene.point_query(), NativeCall::PointQuery { scene: 31 });
}

#[test]
fn streams_say_how_packets_lie() {
    let scene = new_scene(DEVICE, 31);
    let single = vec![RayHit::new(Ray::new([0; 3], [0; 3])); 3];
    assert_eq!(
        scene.intersect_stream_aos(&single),
        NativeCall::Intersect1M {
            scene: 31,
            m: 3,
            byte_stride: std::mem::size_of::<RayHit>(),
        }
    );
    let packets: Vec<RayHit16> = Vec::new();
    assert_eq!(
        scene.intersect_stream_aos(&packets),
        NativeCall::IntersectNM {
            scene: 31,
            width: 16,
            m: 0,
            byte_stride: std::mem::size_of::<RayHit16>(),
        }
    );
    assert_eq!(
        scene.occluded_stream_aos(&vec![Ray8::empty()]),
        NativeCall::OccludedNM {
            scene: 31,
            width: 8,
            m: 1,
            byte_stride: std::mem::size_of::<Ray8>(),
        }
    );
    assert_eq!(
        scene.occluded_stream_aos(&vec![single[0].ray; 2]),
        NativeCall::Occluded1M { scene: 31, m: 2, byte_stride: std::mem::size_of::<Ray>() }
    );
    assert_eq!(scene.intersect_stream_soa(9), NativeCall::IntersectNp { scene: 31, n: 9 });
    assert_eq!(scene.occluded_stream_soa(9), NativeCall::OccludedNp { scene: 31, n: 9 });
    assert_eq!(scene.intersect1mp(5), NativeCall::Intersect1Mp { scene: 31, m: 5 });
    assert_eq!(scene.occluded1mp(5), NativeCall::Occluded1Mp { scene: 31, m: 5 });
    assert_eq!(scene.intersect(), NativeCall::Intersect1 { scene: 31 });
    assert_eq!(scene.occluded(), NativeCall::Occluded1 { scene: 31 });
}

#[test]
fn a_ray_is_occluded_when_its_far_end_is_minus_infinity() {
    let scene = new_scene(DEVICE, 31);
    let far = |t: f32| Ray { tfar: t.to_bits(), ..Ray::new([0; 3], [0; 3]) };
    assert!(scene.occluded_result(&far(f32::NEG_INFINITY)));
    assert!(!scene.occluded_result(&far(f32::INFINITY)));
    assert!(!scene.occluded_result(&far(-1.0)));
}

#[test]
fn only_scenes_of_user_geometries_collide() {
    let mut store = Store::new();
    let mut a = new_scene(DEVICE, 31);
    let mut b = new_scene(DEVICE, 32);
    let user = geometry(&mut store, GeometryKind::USER, 11);
    let tri = geometry(&mut store, GeometryKind::TRIANGLE, 12);
    let refused = Err(Error::INVALID_ARGUMENT);

    assert_eq!(a.collide(&b), refused); // both empty
    a.attach_geometry(&mut store, &user, 0);
    assert_eq!(a.collide(&b), refused); // one empty
    assert_eq!(b.collide(&a), refused);
    b.attach_geometry(&mut store, &user, 0);
    assert_eq!(a.collide(&b), Ok(NativeCall::Collide { scene: 31, other: 32 }));
    assert_eq!(b.collide(&a), Ok(NativeCall::Collide { scene: 32, other: 31 }));
    assert_eq!(a.collide(&a), Ok(NativeCall::Collide { scene: 31, other: 31 }));
    b.attach_geometry(&mut store, &tri, 1);
    assert_eq!(a.collide(&b), refused); // a triangle mesh among them
    b.detach_geometry(&mut store, 1);
    assert!(a.collide(&b).is_ok());

    let mut elsewhere = new_scene(Device { handle: 8 }, 33);
    elsewhere.attach_geometry(&mut store, &user, 0);
    assert_eq!(a.collide(&elsewhere), refused); // another device
}

#[test]
fn a_progress_callback_comes_back_when_replaced() {
    let mut scene = new_scene(DEVICE, 31);
    let call = |registered| NativeCall::SetSceneProgressMonitorFunction { scene: 31, registered };
    assert_eq!(scene.set_progress_monitor_function(1), (call(true), None));
    assert_eq!(scene.set_progress_monitor_function(2), (call(true), Some(1)));
    assert_eq!(scene.unset_progress_monitor_function(), (call(false), Some(2)));
    assert_eq!(scene.unset_progress_monitor_function(), (call(false), None));
}

#[test]
fn a_scene_is_created_with_flags() {
    assert_eq!(Scene::<()>::request(&DEVICE), NativeCall::NewScene { device: 7 });
    let (scene, call) = Scene::<()>::new_with_flags(DEVICE, 5, 31, Error::NONE).unwrap();
    assert_eq!(call, NativeCall::SetSceneFlags { scene: 31, flags: 5 });
    assert_eq!((scene.handle(), scene.device().handle), (31, 7));
    let failed = Scene::<()>::new_with_flags(DEVICE, 5, 0, Error::OUT_OF_MEMORY);
    assert_eq!(failed.err(), Some(Error::OUT_OF_MEMORY));
    let failed = Scene::<()>::new(DEVICE, 0, Error::UNKNOWN);
    assert_eq!(failed.err(), Some(Error::UNKNOWN));
}

#[test]
fn scene_settings_become_native_calls() {
    let mut store = Store::new();
    let mut scene = new_scene(DEVICE, 31);
    assert_eq!(scene.get_flags(), NativeCall::GetSceneFlags { scene: 31 });
    assert_eq!(scene.join_commit(), NativeCall::JoinCommitScene { scene: 31 });
    assert_eq!(
        scene.set_build_quality(BuildQuality::HIGH),
        NativeCall::SetSceneBuildQuality { scene: 31, quality: BuildQuality::HIGH }
    );
    assert_eq!(
        scene.get_bounds(),
        (NativeCall::GetSceneBounds { scene: 31 }, Bounds::zero())
    );
    assert_eq!(
        scene.get_linear_bounds(),
        (
            NativeCall::GetSceneLinearBounds { scene: 31 },
            LinearBounds { bounds0: Bounds::zero(), bounds1: Bounds::zero() }
        )
    );
    let inst = geometry(&mut store, GeometryKind::INSTANCE, 11);
    scene.attach_geometry(&mut store, &inst, 2);
    let matrix = [1u32; 16];
    assert!(matches!(
        scene.set_geometry_transform(2, 1, &matrix),
        Some(NativeCall::SetGeometryTransform { geometry: 11, time_step: 1, matrix: m, .. })
            if m == matrix
    ));
    assert_eq!(scene.set_geometry_transform(3, 1, &matrix), None);
    assert_eq!(scene.commit_geometry(3), None);
}
