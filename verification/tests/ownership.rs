//! Who owns a geometry: builders, handles and scenes.

use embree3::{
    Device, Error, Geometry, GeometryBuilder, GeometryKind, GeometryStore,
    InstanceGeometryBuilder, NativeCall, QuadMeshBuilder, Scene, TriangleMeshBuilder,
    UserGeometryBuilder,
};

type Builder = GeometryBuilder<'static, (), ()>;
type Store = GeometryStore<'static, (), ()>;

const DEVICE: Device = Device { handle: 7 };

fn unit_triangle(handle: usize) -> Builder {
    let (builder, call) = Geometry::new(&DEVICE, GeometryKind::TRIANGLE, handle);
    assert_eq!(call, NativeCall::SetGeometryUserData { geometry: handle });
    builder
}

fn new_scene(handle: usize) -> Scene<()> {
    Scene::new(DEVICE, handle, Error::NONE).unwrap()
}

fn owners(store: &Store, g: &Geometry) -> u64 {
    store.get(g.id()).unwrap().owners
}

#[test]
fn sole_owner_can_edit_and_round_trip() {
    let mut store = Store::new();
    let (geom, _) = unit_triangle(11).commit(&mut store);
    let builder = geom.try_edit(&mut store).expect("a sole-owner geometry must be editable");
    assert_eq!(builder.handle(), 11);
    let (again, call) = builder.commit(&mut store);
    assert_eq!(call, NativeCall::CommitGeometry { geometry: 11 });
    assert!(store.contains(&again));
    assert_eq!(again.kind(), GeometryKind::TRIANGLE);
}

#[test]
fn attached_geometry_cannot_be_edited() {
    let mut store = Store::new();
    let mut scene = new_scene(31);
    let (geom, _) = unit_triangle(11).commit(&mut store);
    scene.attach_geometry(&mut store, &geom, 0);
    assert!(geom.try_edit(&mut store).is_err());
}

#[test]
fn detach_restores_editability() {
    let mut store = Store::new();
    let mut scene = new_scene(31);
    let (geom, _) = unit_triangle(11).commit(&mut store);
    assert_eq!(
        scene.attach_request(&geom),
        NativeCall::AttachGeometry { scene: 31, geometry: 11 }
    );
    let id = 0;
    scene.attach_geometry(&mut store, &geom, id);

    let alias = geom.retain(&mut store);
    let alias = alias.try_edit(&mut store).expect_err("attached geometry is not editable");
    assert!(alias.release(&mut store).is_empty());

    assert_eq!(
        scene.detach_geometry(&mut store, id),
        vec![NativeCall::DetachGeometry { scene: 31, id }]
    );
    assert!(geom.try_edit(&mut store).is_ok());
}

#[test]
fn other_clone_blocks_editing() {
    let mut store = Store::new();
    let (geom, _) = unit_triangle(11).commit(&mut store);
    let alias = geom.retain(&mut store);
    assert_eq!(owners(&store, &alias), 2);
    assert!(geom.try_edit(&mut store).is_err());
}

#[test]
fn scene_disable_then_enable_geometry() {
    let mut store = Store::new();
    let mut scene = new_scene(31);
    let (tri, _) = unit_triangle(11).commit(&mut store);
    let id = 0;
    scene.attach_geometry(&mut store, &tri, id);

    // The native library's record of what is enabled.
    let mut enabled = true;
    for (call, expected) in [
        (scene.disable_geometry(id), false),
        (scene.enable_geometry(id), true),
    ] {
        match call {
            Some(NativeCall::DisableGeometry { geometry: 11 }) => enabled = false,
            Some(NativeCall::EnableGeometry { geometry: 11 }) => enabled = true,
            other => panic!("unexpected {other:?}"),
        }
        assert_eq!(enabled, expected);
    }
    assert_eq!(scene.disable_geometry(5), None);
    assert_eq!(scene.enable_geometry(5), None);
}

#[test]
fn handles_are_counted() {
    let mut store = Store::new();
    let (a, _) = unit_triangle(11).commit(&mut store);
    let (b, _) = unit_triangle(12).commit(&mut store);
    assert_ne!(a.id(), b.id());
    let a2 = a.retain(&mut store);
    assert_eq!((owners(&store, &a), owners(&store, &b)), (2, 1));
    assert!(a2.release(&mut store).is_empty());
    assert_eq!(owners(&store, &a), 1);
    let id = a.id();
    assert_eq!(
        a.release(&mut store),
        vec![NativeCall::ReleaseGeometry { geometry: 11 }]
    );
    assert!(store.get(id).is_none());
    assert_eq!(owners(&store, &b), 1);
}

#[test]
fn a_scene_gives_its_handles_up() {
    let mut store = Store::new();
    let mut scene = new_scene(31);
    let (a, _) = unit_triangle(11).commit(&mut store);
    scene.attach_geometry(&mut store, &a, 0);
    // The application's handle goes first; the scene keeps the geometry alive.
    let id = a.id();
    assert!(a.release(&mut store).is_empty());
    assert!(store.get(id).is_some());
    assert_eq!(
        scene.release(&mut store),
        vec![
            NativeCall::ReleaseScene { scene: 31 },
            NativeCall::ReleaseGeometry { geometry: 11 },
        ]
    );
    assert!(store.get(id).is_none());
}

#[test]
fn attaching_by_a_used_id_fails() {
    let mut store = Store::new();
    let mut scene = new_scene(31);
    let (a, _) = unit_triangle(11).commit(&mut store);
    let (b, _) = unit_triangle(12).commit(&mut store);
    assert_eq!(
        scene.attach_geometry_by_id(&mut store, &a, 4),
        vec![NativeCall::AttachGeometryByID { scene: 31, geometry: 11, id: 4 }]
    );
    assert_eq!(owners(&store, &a), 2);
    // The native library reports the error; the scene stays as it is.
    assert_eq!(
        scene.attach_geometry_by_id(&mut store, &b, 4),
        vec![NativeCall::AttachGeometryByID { scene: 31, geometry: 12, id: 4 }]
    );
    assert_eq!(scene.attached(4).unwrap().id(), a.id());
    assert_eq!(scene.get_geometry(&mut store, 4, 11).unwrap().id(), a.id());
    assert_eq!((owners(&store, &a), owners(&store, &b)), (3, 1));
    assert!(b.try_edit(&mut store).is_ok());
    assert!(scene.attached(5).is_none());
}

#[test]
fn a_store_has_room_for_more() {
    let mut store = Store::new();
    assert!(store.has_room());
    let _ = unit_triangle(11).commit(&mut store);
    assert!(store.has_room());
}

#[test]
fn tessellation_rates_belong_to_subdivisions_and_curves() {
    let rated = |kind| -> bool {
        let (b, _): (Builder, _) = Geometry::new(&DEVICE, kind, 11);
        b.supports_tessellation_rate()
    };
    assert!(rated(GeometryKind::SUBDIVISION));
    assert!(rated(GeometryKind::FLAT_LINEAR_CURVE));
    assert!(rated(GeometryKind::ROUND_BEZIER_CURVE));
    assert!(!rated(GeometryKind::TRIANGLE));
    assert!(!rated(GeometryKind::USER));
}

#[test]
fn attached_geometries_are_looked_up() {
    let mut store = Store::new();
    let mut scene = new_scene(31);
    let (a, _) = unit_triangle(11).commit(&mut store);
    scene.attach_geometry(&mut store, &a, 4);
    assert_eq!(
        scene.get_geometry_request(4),
        NativeCall::GetGeometryThreadSafe { scene: 31, id: 4 }
    );
    assert_eq!(
        scene.get_geometry_unchecked_request(4),
        NativeCall::GetGeometry { scene: 31, id: 4 }
    );
    let found = scene.get_geometry(&mut store, 4, 11).unwrap();
    assert_eq!(found.id(), a.id());
    assert_eq!(owners(&store, &a), 3);
    assert!(scene.get_geometry(&mut store, 4, 0).is_none());
    assert!(scene.get_geometry(&mut store, 5, 11).is_none());
    assert!(scene.get_geometry_unchecked(&mut store, 4, 11).is_some());
    assert_eq!(owners(&store, &a), 4);
}

#[test]
fn wrappers_fix_the_kind() {
    let mut store = Store::new();
    let (t, _) = TriangleMeshBuilder::new(&DEVICE, 1);
    assert_eq!(t.commit(&mut store).0.kind(), GeometryKind::TRIANGLE);
    let (q, _) = QuadMeshBuilder::new(&DEVICE, 2);
    assert_eq!(q.commit(&mut store).0.kind(), GeometryKind::QUAD);
    let (u, _) = UserGeometryBuilder::new(&DEVICE, 3);
    assert_eq!(u.commit(&mut store).0.kind(), GeometryKind::USER);
    let (i, _) = InstanceGeometryBuilder::new(&DEVICE, 4);
    let (i, call) = i.commit(&mut store);
    assert_eq!(i.kind(), GeometryKind::INSTANCE);
    assert_eq!(call, NativeCall::CommitGeometry { geometry: 4 });
    assert_eq!(
        Geometry::request(&DEVICE, GeometryKind::QUAD),
        NativeCall::NewGeometry { device: 7, kind: GeometryKind::QUAD }
    );
}
