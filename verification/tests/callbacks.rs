//! Callbacks of geometries. The tests stand in for the native library: they
//! find a geometry's callbacks through its call site and call them.

use std::any::Any;
use std::sync::atomic::{AtomicUsize, Ordering};
use std::sync::{Arc, Mutex};

use embree3::args::SingleFilter;
use embree3::callback::{
    bounds_function, displacement_function, intersect_filter_function, intersect_function,
    occluded_filter_function, occluded_function, BoundsFunctionArguments,
    DisplacementFunctionNArguments, FilterFunctionNArguments, IntersectFunctionNArguments,
    OccludedFunctionNArguments,
};
use embree3::geometry::CallbackChange;
use embree3::{
    AsIntersectContext, Bounds, CallSite, CbKind, Device, Geometry, GeometryBuilder, GeometryKind,
    GeometryStore, Hit, HitN, IntersectContext, IntersectContextExt, IntersectFunctionNArgs,
    NativeCall, OccludedFunctionNArgs, Ray, RayN, Scene, SoAHit, SoARay, UserBinding, ValidMask,
    ValidityN, Vertices, INVALID_ID,
};

type Data = Box<dyn Any + Send + Sync>;

/// Runs the geometry's filter on rays, candidate hits and masks.
type Native<'n> = &'n dyn Fn(&mut [u32], &mut [u32], &mut [i32]);

type FilterFn =
    dyn Fn(RayN<'_>, HitN<'_>, ValidityN<'_>, &mut IntersectContext, Option<&Data>) + Send + Sync;
type IntersectFn =
    dyn Fn(&mut IntersectFunctionNArgs<'_, IntersectContext, Data>, Native<'_>) + Send + Sync;
type OccludedFn =
    dyn Fn(&mut OccludedFunctionNArgs<'_, IntersectContext, Data>, Native<'_>) + Send + Sync;
type BoundsFn = dyn Fn(&mut Bounds, u32, u32, Option<&Data>) + Send + Sync;

enum Callback {
    Filter(Box<FilterFn>),
    Intersect(Box<IntersectFn>),
    Occluded(Box<OccludedFn>),
    Bounds(Box<BoundsFn>),
}

type Builder = GeometryBuilder<'static, Callback, Data>;
type Store = GeometryStore<'static, Callback, Data>;
type Site = CallSite<Callback, Data>;

const DEVICE: Device = Device { handle: 7 };

fn filter(
    f: impl Fn(RayN<'_>, HitN<'_>, ValidityN<'_>, &mut IntersectContext, Option<&Data>)
        + Send
        + Sync
        + 'static,
) -> Callback {
    Callback::Filter(Box::new(f))
}

fn new_geometry(kind: GeometryKind) -> Builder {
    Geometry::new(&DEVICE, kind, 11).0
}

fn bits3(v: [f32; 3]) -> [u32; 3] {
    [v[0].to_bits(), v[1].to_bits(), v[2].to_bits()]
}

fn ray(origin: [f32; 3]) -> Ray {
    Ray::segment(bits3(origin), bits3([0.0, 0.0, 1.0]), 0, f32::INFINITY.to_bits())
}

fn ray_words(rays: &[Ray]) -> Vec<u32> {
    let columns: [fn(&Ray) -> u32; 12] = [
        |r| r.org_x,
        |r| r.org_y,
        |r| r.org_z,
        |r| r.tnear,
        |r| r.dir_x,
        |r| r.dir_y,
        |r| r.dir_z,
        |r| r.time,
        |r| r.tfar,
        |r| r.mask,
        |r| r.id,
        |r| r.flags,
    ];
    columns.iter().flat_map(|c| rays.iter().map(move |r| c(r))).collect()
}

fn hit_words(hits: &[Hit]) -> Vec<u32> {
    let columns: [fn(&Hit) -> u32; 8] = [
        |h| h.Ng_x,
        |h| h.Ng_y,
        |h| h.Ng_z,
        |h| h.u,
        |h| h.v,
        |h| h.primID,
        |h| h.geomID,
        |h| h.instID[0],
    ];
    columns.iter().flat_map(|c| hits.iter().map(move |h| c(h))).collect()
}

fn candidate(prim_id: u32, geom_id: u32) -> Hit {
    Hit {
        Ng_x: 0,
        Ng_y: 0,
        Ng_z: (-1.0f32).to_bits(),
        u: 0,
        v: 0,
        primID: prim_id,
        geomID: geom_id,
        instID: [INVALID_ID],
    }
}

/// Runs a filter of the geometry, as the native library does.
fn run_filter(
    site: &Site,
    occlusion: bool,
    rays: &mut [u32],
    hits: &mut [u32],
    valid: &mut [i32],
    ctx: &mut IntersectContext,
) {
    let n = valid.len();
    let args = FilterFunctionNArguments { valid, context: ctx, ray: rays, hit: hits, n };
    let call = if occlusion {
        occluded_filter_function(site, args)
    } else {
        intersect_filter_function(site, args)
    };
    if let Some(c) = call {
        match c.closure {
            Callback::Filter(f) => f(c.rays, c.hits, c.valid, c.context, c.user_data),
            _ => panic!("not a filter"),
        }
    }
}

/// Casts a ray at a triangle with geometry ID 0: a hit unless its filter rejects
/// it.
fn trace_triangle(site: &Site, occlusion: bool) -> bool {
    let mut rays = ray_words(&[ray([0.25, 0.25, -1.0])]);
    let mut hits = hit_words(&[candidate(0, 0)]);
    let mut valid = [-1];
    let mut ctx = IntersectContext::coherent();
    run_filter(site, occlusion, &mut rays, &mut hits, &mut valid, &mut ctx);
    valid[0] != 0
}

/// Casts a packet of rays at a user geometry with geometry ID 0; the resulting
/// packet.
fn trace_user(site: &Site, rays: &[Ray]) -> Vec<u32> {
    let n = rays.len();
    let mut words = ray_words(rays);
    words.extend(hit_words(&vec![Hit::new(); n]));
    let mut valid = vec![-1; n];
    let mut ctx = IntersectContext::coherent();
    let args = IntersectFunctionNArguments {
        valid: &mut valid,
        context: &mut ctx,
        rayhit: &mut words,
        n,
        geom_id: 0,
        prim_id: 0,
    };
    if let Some(mut c) = intersect_function(site, args) {
        match c.closure {
            Callback::Intersect(f) => f(&mut c.args, &|rays, hits, valid| {
                let mut ctx = IntersectContext::coherent();
                run_filter(site, false, rays, hits, valid, &mut ctx)
            }),
            _ => panic!("not an intersector"),
        }
    }
    words
}

/// Casts a shadow ray at a user geometry; the resulting ray.
fn trace_shadow(site: &Site, r: Ray) -> Ray {
    let mut words = ray_words(&[r]);
    let mut valid = [-1];
    let mut ctx = IntersectContext::coherent();
    let args = OccludedFunctionNArguments {
        valid: &mut valid,
        context: &mut ctx,
        ray: &mut words,
        n: 1,
        geom_id: 0,
        prim_id: 0,
    };
    if let Some(mut c) = occluded_function(site, args) {
        match c.closure {
            Callback::Occluded(f) => f(&mut c.args, &|rays, hits, valid| {
                let mut ctx = IntersectContext::coherent();
                run_filter(site, true, rays, hits, valid, &mut ctx)
            }),
            _ => panic!("not an occluder"),
        }
    }
    RayN::new(&mut words, 1).gather_unchecked(0)
}

/// Asks a user geometry for the bounds of its first primitive.
fn ask_bounds(site: &Site) -> Bounds {
    let mut bounds = Bounds::zero();
    let args = BoundsFunctionArguments { prim_id: 0, time_step: 0, bounds: &mut bounds };
    if let Some(c) = bounds_function(site, args) {
        match c.closure {
            Callback::Bounds(f) => f(c.bounds, c.prim_id, c.time_step, c.user_data),
            _ => panic!("not a bounds function"),
        }
    }
    bounds
}

fn unit_box() -> Bounds {
    let one = 1.0f32.to_bits();
    Bounds { upper_x: one, upper_y: one, upper_z: one, ..Bounds::zero() }
}

fn site<'s>(store: &'s Store, g: &Geometry) -> &'s Site {
    &store.get(g.id()).unwrap().shared.call_site
}

#[test]
fn each_callback_sees_its_own_data() {
    let mut store = Store::new();
    let mut tri = new_geometry(GeometryKind::TRIANGLE);
    let from_intersect = Arc::new(Mutex::new(None::<i32>));
    let from_occluded = Arc::new(Mutex::new(None::<i32>));
    let (ci, co) = (from_intersect.clone(), from_occluded.clone());
    tri.set_intersect_filter_function_owned(
        filter(move |_r, _h, _v, _c, ud| {
            *ci.lock().unwrap() = ud.and_then(|d| d.downcast_ref::<i32>().copied());
        }),
        Box::new(7i32),
    );
    tri.set_occluded_filter_function_owned(
        filter(move |_r, _h, _v, _c, ud| {
            *co.lock().unwrap() = ud.and_then(|d| d.downcast_ref::<i32>().copied());
        }),
        Box::new(99i32),
    );
    let (geom, _) = tri.commit(&mut store);
    let mut scene: Scene<()> = Scene::new(DEVICE, 31, embree3::Error::NONE).unwrap();
    scene.attach_geometry(&mut store, &geom, 0);

    trace_triangle(site(&store, &geom), false);
    trace_triangle(site(&store, &geom), true);
    assert_eq!(*from_intersect.lock().unwrap(), Some(7));
    assert_eq!(*from_occluded.lock().unwrap(), Some(99));
}

#[test]
fn replacing_callback_swaps_closure_and_its_own_data() {
    let mut store = Store::new();
    let mut tri = new_geometry(GeometryKind::TRIANGLE);
    let a_alive = Arc::new(());
    let a_weak = Arc::downgrade(&a_alive);
    let seen = Arc::new(Mutex::new(String::new()));
    let (sa, sb) = (seen.clone(), seen.clone());

    let change = tri.set_intersect_filter_function_owned(
        filter(move |_r, _h, _v, _c, _ud| {
            let _hold = &a_alive;
            *sa.lock().unwrap() = "A".into();
        }),
        Box::new(7i32),
    );
    assert!(change.released.closure.is_none());
    let change = tri.set_intersect_filter_function_owned(
        filter(move |_r, _h, _v, _c, ud| {
            let x = ud.and_then(|d| d.downcast_ref::<f32>().copied());
            *sb.lock().unwrap() = format!("B:{x:?}");
        }),
        Box::new(2.5f32),
    );
    match &change.released.user_data {
        UserBinding::Owned(d) => assert_eq!(d.downcast_ref::<i32>(), Some(&7)),
        _ => panic!("the data of the first callback comes back"),
    }
    drop(change);
    assert!(a_weak.upgrade().is_none(), "the first closure is freed on replacement");

    let (geom, _) = tri.commit(&mut store);
    trace_triangle(site(&store, &geom), false);
    assert_eq!(*seen.lock().unwrap(), "B:Some(2.5)");
}

struct Witness(u8, Arc<AtomicUsize>);
impl Drop for Witness {
    fn drop(&mut self) {
        self.1.fetch_add(1, Ordering::SeqCst);
    }
}

#[test]
fn owned_data_dropped_once_and_readable_via_getter() {
    let drops = Arc::new(AtomicUsize::new(0));
    let mut store = Store::new();
    let mut tri = new_geometry(GeometryKind::TRIANGLE);
    let nothing = || filter(|_r, _h, _v, _c, _ud| {});

    tri.set_intersect_filter_function_owned(nothing(), Box::new(Witness(1, drops.clone())));
    assert_eq!(drops.load(Ordering::SeqCst), 0);
    let held = tri.callback_data(CbKind::IntersectFilter);
    assert_eq!(held.and_then(|d| d.downcast_ref::<Witness>()).map(|w| w.0), Some(1));

    tri.set_intersect_filter_function_owned(nothing(), Box::new(Witness(2, drops.clone())));
    assert_eq!(drops.load(Ordering::SeqCst), 1);
    let (geom, _) = tri.commit(&mut store);
    geom.release(&mut store);
    assert_eq!(drops.load(Ordering::SeqCst), 2);
}

#[test]
fn borrowed_data_reaches_callback_zero_copy() {
    // A geometry whose callbacks read a table that the application keeps.
    type Sum<'t> = Box<dyn Fn(Option<&&'t Vec<u32>>) + 't>;
    let table: Vec<u32> = vec![10, 20, 30];
    let seen = Mutex::new(None::<u32>);
    let mut store: GeometryStore<'_, Sum<'_>, &Vec<u32>> = GeometryStore::new();
    let (mut tri, _) = Geometry::new(&DEVICE, GeometryKind::TRIANGLE, 11);
    let sum: Sum<'_> = Box::new(|ud| {
        *seen.lock().unwrap() = ud.map(|t| t.iter().copied().sum::<u32>());
    });
    tri.set_intersect_filter_function_borrowed(sum, &table);
    // The getter does not answer for borrowed data.
    assert!(tri.callback_data(CbKind::IntersectFilter).is_none());
    let (geom, _) = tri.commit(&mut store);

    let mut rays = ray_words(&[ray([0.25, 0.25, -1.0])]);
    let mut hits = hit_words(&[candidate(0, 0)]);
    let mut valid = [-1];
    let mut ctx = IntersectContext::coherent();
    let args = FilterFunctionNArguments {
        valid: &mut valid,
        context: &mut ctx,
        ray: &mut rays,
        hit: &mut hits,
        n: 1,
    };
    let shared = &store.get(geom.id()).unwrap().shared;
    let call = intersect_filter_function(&shared.call_site, args).unwrap();
    (call.closure)(call.user_data);
    assert_eq!(*seen.lock().unwrap(), Some(60));
}

struct Magic {
    magic: u32,
}

/// A bounds callback that records the magic number of its data.
fn recording_bounds(seen: Arc<Mutex<Option<u32>>>) -> Callback {
    Callback::Bounds(Box::new(move |bounds, _prim, _time, user| {
        *bounds = unit_box();
        *seen.lock().unwrap() = user.and_then(|d| d.downcast_ref::<Magic>()).map(|u| u.magic);
    }))
}

#[test]
fn dropping_one_clone_does_not_free_shared_user_data() {
    let mut store = Store::new();
    let seen = Arc::new(Mutex::new(None));
    let mut geom = new_geometry(GeometryKind::USER);
    geom.set_user_primitive_count(1);
    geom.set_bounds_function_owned(
        recording_bounds(seen.clone()),
        Box::new(Magic { magic: 0x0BAD_F00D }),
    );
    let (geom, _) = geom.commit(&mut store);
    let cloned = geom.retain(&mut store);
    assert!(cloned.release(&mut store).is_empty());

    assert_eq!(ask_bounds(site(&store, &geom)), unit_box());
    assert_eq!(*seen.lock().unwrap(), Some(0x0BAD_F00D));
}

#[test]
fn user_data_reaches_bounds_callback_correctly_typed() {
    let mut store = Store::new();
    let seen = Arc::new(Mutex::new(None));
    let mut geom = new_geometry(GeometryKind::USER);
    geom.set_user_primitive_count(1);
    geom.set_bounds_function_owned(
        recording_bounds(seen.clone()),
        Box::new(Magic { magic: 0x1234_5678 }),
    );
    let (geom, _) = geom.commit(&mut store);
    assert_eq!(ask_bounds(site(&store, &geom)), unit_box());
    assert_eq!(*seen.lock().unwrap(), Some(0x1234_5678));
}

#[test]
fn callback_data_roundtrips_and_is_type_checked() {
    let mut geom = new_geometry(GeometryKind::USER);
    assert!(geom.callback_data(CbKind::UserBounds).is_none());
    geom.set_bounds_function_owned(
        Callback::Bounds(Box::new(|_b, _p, _t, _u| {})),
        Box::new(Magic { magic: 0xCAFE }),
    );
    let read = |g: &Builder| {
        let held = g.callback_data(CbKind::UserBounds)?;
        held.downcast_ref::<Magic>().map(|u| u.magic)
    };
    assert_eq!(read(&geom), Some(0xCAFE));
    let held = geom.callback_data(CbKind::UserBounds).unwrap();
    assert!(held.downcast_ref::<u64>().is_none());
    assert!(geom.callback_data(CbKind::IntersectFilter).is_none());

    if let Some(d) = geom.callback_data_mut(CbKind::UserBounds) {
        d.downcast_mut::<Magic>().unwrap().magic = 0xBEEF;
    }
    assert_eq!(read(&geom), Some(0xBEEF));
    let mut store = Store::new();
    let (geom, _) = geom.commit(&mut store);
    assert!(geom.callback_data(&store, CbKind::UserBounds).is_some());
    assert!(geom.callback_data(&store, CbKind::UserOccluded).is_none());
}

#[test]
fn capturing_intersect_filter_is_invoked_with_live_state() {
    let mut store = Store::new();
    let probe: Arc<Mutex<Vec<u32>>> = Arc::new(Mutex::new(vec![]));
    let probe_in_cb = probe.clone();
    let mut tri = new_geometry(GeometryKind::TRIANGLE);
    let change = tri.set_intersect_filter_function(filter(move |_r, _h, valid, _c, _u| {
        probe_in_cb.lock().unwrap().push(0xF11A_u32 ^ valid.len() as u32);
    }));
    assert_eq!(
        change.call,
        Some(NativeCall::SetGeometryIntersectFilterFunction { geometry: 11, registered: true })
    );
    let (tri, _) = tri.commit(&mut store);
    assert!(trace_triangle(site(&store, &tri), false), "ray should hit the triangle");
    assert_eq!(*probe.lock().unwrap(), vec![0xF11A_u32 ^ 1]);
}

#[derive(Clone, Copy, Default)]
struct Seen {
    ran: bool,
    valid0: i32,
    geom_id: u32,
    org: [u32; 3],
}

#[test]
fn filter_uses_unchecked_accessors_end_to_end() {
    let mut store = Store::new();
    let mut tri = new_geometry(GeometryKind::TRIANGLE);
    let seen = Arc::new(Mutex::new(Seen::default()));
    let sink = seen.clone();
    tri.set_intersect_filter_function(filter(move |rays, hits, mut valid, _ctx, _user| {
        for i in 0..rays.len() {
            let v = valid.get_unchecked(i);
            if v == 0 {
                continue;
            }
            let ray = rays.gather_unchecked(i);
            let hit = hits.gather_unchecked(i);
            *sink.lock().unwrap() = Seen {
                ran: true,
                valid0: v,
                geom_id: hit.geomID,
                org: [ray.org_x, ray.org_y, ray.org_z],
            };
            valid.set_unchecked(i, 0);
        }
    }));
    let (tri, _) = tri.commit(&mut store);
    let is_hit = trace_triangle(site(&store, &tri), false);

    let s = *seen.lock().unwrap();
    assert!(s.ran, "the filter must have run via the unchecked accessors");
    assert_eq!(s.valid0, -1);
    assert_eq!(s.geom_id, 0);
    assert_eq!(s.org, bits3([0.25, 0.25, -1.0]));
    assert!(!is_hit, "the rejected lane is a miss");
}

#[test]
fn for_each_active_lane_reports_a_hit() {
    let mut store = Store::new();
    let mut geom = new_geometry(GeometryKind::USER);
    geom.set_intersect_function(Callback::Intersect(Box::new(|args, native| {
        for i in args.valid_n().active_lanes() {
            let mut ray = args.ray(i);
            let t = 1.5f32;
            if t > f32::from_bits(ray.tnear) && t < f32::from_bits(ray.tfar) {
                let hit = candidate(args.prim_id(), args.geom_id());
                ray.tfar = t.to_bits();
                if survives(args, native, &ray, &hit) {
                    args.commit_hit(i, &ray, &hit);
                }
            }
        }
    })));
    let (geom, _) = geom.commit(&mut store);
    let mut words = trace_user(site(&store, &geom), &[ray([0.0, 0.0, -2.0])]);
    let hit = HitN::new(&mut words[12..], 1).gather_unchecked(0);
    assert!(hit.is_valid());
    assert_eq!(hit.geomID, 0);
}

/// Shows one candidate to the geometry's filter.
fn survives(
    args: &IntersectFunctionNArgs<'_, IntersectContext, Data>,
    native: Native<'_>,
    ray: &Ray,
    hit: &Hit,
) -> bool {
    let request = args.filter_request();
    assert_eq!(request, SingleFilter { valid: -1, n: 1 });
    let mut valid = [request.valid];
    native(&mut ray_words(&[*ray]), &mut hit_words(&[*hit]), &mut valid);
    args.filter_intersection(valid[0])
}

#[derive(Default)]
struct Probe {
    calls: u32,
    seen_geom: u32,
}

#[test]
fn callback_recovers_typed_context_ext() {
    type F = fn(&HitN<'_>, &mut IntersectContextExt<Probe>);
    let mut store: GeometryStore<'static, F, ()> = GeometryStore::new();
    let (mut tri, _) = Geometry::new(&DEVICE, GeometryKind::TRIANGLE, 11);
    let f: F = |hit, ctx| {
        let probe = ctx.as_mut_extended().unwrap();
        probe.calls += 1;
        probe.seen_geom = hit.geom_id(0);
    };
    tri.set_intersect_filter_function(f);
    let (tri, _) = tri.commit(&mut store);

    let mut ctx = IntersectContextExt::coherent(Probe { calls: 0, seen_geom: 5 });
    let mut rays = ray_words(&[ray([0.25, 0.25, -1.0])]);
    let mut hits = hit_words(&[candidate(0, 0)]);
    let mut valid = [-1];
    let args = FilterFunctionNArguments {
        valid: &mut valid,
        context: &mut ctx,
        ray: &mut rays,
        hit: &mut hits,
        n: 1,
    };
    let shared = &store.get(tri.id()).unwrap().shared;
    let call = intersect_filter_function(&shared.call_site, args).unwrap();
    (call.closure)(&call.hits, call.context);
    assert!(ctx.ext.calls >= 1);
    assert_eq!(ctx.ext.seen_geom, 0);
}

/// A sphere whose intersector shows candidates at the distances `ts` to the
/// filter and commits the survivors.
fn intersector(ts: Vec<f32>) -> Callback {
    Callback::Intersect(Box::new(move |args, native| {
        for i in 0..args.len() {
            if args.valid_n()[i] == 0 {
                continue;
            }
            for &t in &ts {
                let mut ray = args.ray(i);
                if t > f32::from_bits(ray.tnear) && t < f32::from_bits(ray.tfar) {
                    let hit = candidate(args.prim_id(), args.geom_id());
                    ray.tfar = t.to_bits();
                    if survives(args, native, &ray, &hit) {
                        args.commit_hit(i, &ray, &hit);
                    }
                }
            }
        }
    }))
}

fn trace_sphere_with_filter(reject: bool) -> (bool, Vec<u32>, usize) {
    let mut store = Store::new();
    let probe = Arc::new(Mutex::new(Vec::new()));
    let calls = Arc::new(AtomicUsize::new(0));
    let (probe_cb, calls_cb) = (probe.clone(), calls.clone());
    let mut sphere = new_geometry(GeometryKind::USER);
    sphere.set_intersect_function(intersector(vec![1.5]));
    sphere.set_intersect_filter_function(filter(move |_ray, hit, valid, _ctx, _user| {
        calls_cb.fetch_add(1, Ordering::SeqCst);
        probe_cb.lock().unwrap().push(0xF11A ^ hit.prim_id(0));
        if reject {
            valid.lanes[0] = 0;
        }
    }));
    let (sphere, _) = sphere.commit(&mut store);
    let mut words = trace_user(site(&store, &sphere), &[ray([0.0, 0.0, -2.0])]);
    let hit = HitN::new(&mut words[12..], 1).gather_unchecked(0);
    let recorded = probe.lock().unwrap().clone();
    (hit.is_valid(), recorded, calls.load(Ordering::SeqCst))
}

#[test]
fn filter_runs_for_user_geometry_and_accepts() {
    let (hit_valid, probe, calls) = trace_sphere_with_filter(false);
    assert!(calls >= 1, "the intersect filter must run via the user geometry");
    assert_eq!(probe, vec![0xF11A ^ 0]);
    assert!(hit_valid, "accepted hit must be committed");
}

#[test]
fn filter_runs_for_user_geometry_and_rejects() {
    let (hit_valid, _probe, calls) = trace_sphere_with_filter(true);
    assert!(calls >= 1, "the intersect filter must run via the user geometry");
    assert!(!hit_valid, "rejected hit must NOT be committed");
}

fn trace_sphere_occlusion_with_filter(reject: bool) -> (bool, usize) {
    let mut store = Store::new();
    let calls = Arc::new(AtomicUsize::new(0));
    let calls_cb = calls.clone();
    let mut sphere = new_geometry(GeometryKind::USER);
    sphere.set_occluded_function(Callback::Occluded(Box::new(|args, native| {
        for i in 0..args.len() {
            if args.valid_n()[i] == 0 {
                continue;
            }
            let mut ray = args.ray(i);
            let t = 1.5f32;
            if t > f32::from_bits(ray.tnear) && t < f32::from_bits(ray.tfar) {
                let hit = candidate(args.prim_id(), args.geom_id());
                ray.tfar = t.to_bits();
                let mut valid = [args.filter_request().valid];
                native(&mut ray_words(&[ray]), &mut hit_words(&[hit]), &mut valid);
                if args.filter_occlusion(valid[0]) {
                    args.set_occluded(i);
                }
            }
        }
    })));
    sphere.set_occluded_filter_function(filter(move |_ray, _hit, valid, _ctx, _user| {
        calls_cb.fetch_add(1, Ordering::SeqCst);
        if reject {
            valid.lanes[0] = 0;
        }
    }));
    let (sphere, _) = sphere.commit(&mut store);
    let r = trace_shadow(site(&store, &sphere), ray([0.0, 0.0, -2.0]));
    let scene: Scene<()> = Scene::new(DEVICE, 31, embree3::Error::NONE).unwrap();
    (scene.occluded_result(&r), calls.load(Ordering::SeqCst))
}

#[test]
fn occlusion_filter_runs_and_occludes() {
    let (occluded, calls) = trace_sphere_occlusion_with_filter(false);
    assert!(calls >= 1, "the occlusion filter must run via the user geometry");
    assert!(occluded, "surviving occluder must mark the ray occluded");
}

#[test]
fn occlusion_filter_runs_and_passes_through() {
    let (occluded, calls) = trace_sphere_occlusion_with_filter(true);
    assert!(calls >= 1, "the occlusion filter must run via the user geometry");
    assert!(!occluded, "rejected occluder must NOT mark the ray occluded");
}

#[test]
fn filter_rejecting_nearest_returns_farther_hit() {
    let mut store = Store::new();
    let seen = Arc::new(AtomicUsize::new(0));
    let seen_cb = seen.clone();
    let mut sphere = new_geometry(GeometryKind::USER);
    sphere.set_intersect_function(intersector(vec![1.5, 2.5]));
    sphere.set_intersect_filter_function(filter(move |_ray, _hit, valid, _ctx, _user| {
        if seen_cb.fetch_add(1, Ordering::SeqCst) == 0 {
            valid.lanes[0] = 0;
        }
    }));
    let (sphere, _) = sphere.commit(&mut store);
    let mut words = trace_user(site(&store, &sphere), &[ray([0.0, 0.0, -2.0])]);
    assert!(HitN::new(&mut words[12..], 1).gather_unchecked(0).is_valid());
    let tfar = f32::from_bits(RayN::new(&mut words[..12], 1).tfar(0));
    assert!((tfar - 2.5).abs() < 1e-4, "got {tfar}");
}

#[test]
fn packet_filter_intersectio_n_rejects_per_lane() {
    let mut store = Store::new();
    let calls = Arc::new(AtomicUsize::new(0));
    let calls_cb = calls.clone();
    let mut sphere = new_geometry(GeometryKind::USER);
    sphere.set_intersect_function(Callback::Intersect(Box::new(|args, native| {
        let n = args.len();
        let t = 1.5f32;
        let mut hits = vec![candidate(args.prim_id(), args.geom_id()); n];
        let mut valid = vec![ValidMask::Valid.to_native(); n];
        let mut cached_tfar = vec![0; n];
        for i in 0..n {
            let ray = args.ray(i);
            cached_tfar[i] = ray.tfar;
            let (near, far) = (f32::from_bits(ray.tnear), f32::from_bits(ray.tfar));
            if args.valid_n()[i] != ValidMask::Invalid && t > near && t < far {
                args.set_tfar(i, t.to_bits());
            } else {
                valid[i] = ValidMask::Invalid.to_native();
            }
        }
        let mut request = args.filter_intersection_n(&hits, &valid);
        assert_eq!(request.n as usize, n);
        native(&mut args.rayhit[..12 * n], &mut request.hits[..8 * n], &mut valid);
        args.finish_filter_intersection_n(&request.hits, &valid, &mut hits);
        for i in 0..n {
            if valid[i] != ValidMask::Invalid.to_native() {
                let r = args.ray(i);
                args.commit_hit(i, &r, &hits[i]);
            } else {
                args.set_tfar(i, cached_tfar[i]);
            }
        }
    })));
    sphere.set_intersect_filter_function(filter(move |ray, _hit, valid, _ctx, _user| {
        calls_cb.fetch_add(1, Ordering::SeqCst);
        for i in 0..ray.len() {
            if ray.id(i) % 2 == 1 {
                valid.lanes[i] = 0;
            }
        }
    }));
    let (sphere, _) = sphere.commit(&mut store);

    let origins =
        [[-0.3, 0.0, -2.0], [-0.1, 0.0, -2.0], [0.1, 0.0, -2.0], [0.3, 0.0, -2.0]];
    let rays: Vec<Ray> =
        (0..4).map(|i| Ray { id: i as u32, ..ray(origins[i]) }).collect();
    let mut words = trace_user(site(&store, &sphere), &rays);
    assert!(calls.load(Ordering::SeqCst) >= 1, "the filter must run for the packet");
    let (ray_part, hit_part) = words.split_at_mut(12 * 4);
    let (rays, hits) = (RayN::new(ray_part, 4), HitN::new(hit_part, 4));
    for i in 0..4 {
        assert_eq!(hits.is_valid(i), i % 2 == 0, "lane {i}");
        let expected = if i % 2 == 0 { 1.5 } else { f32::INFINITY };
        assert_eq!(f32::from_bits(rays.tfar(i)), expected);
    }
}

#[test]
fn staged_candidates_come_back() {
    let hits: Vec<Hit> = (0..3).map(|i| Hit { u: 40 + i, ..candidate(i, 9) }).collect();
    let scratch = embree3::args::stage_candidates(&hits, &[-1, 0, -1]);
    assert_eq!(scratch[3 * 3], 40);
    assert_eq!(scratch[3 * 3 + 1], 0);
    assert_eq!(scratch[3 * 3 + 2], 42);
    let mut back = vec![Hit::new(); 3];
    embree3::args::take_candidates(&scratch, &[-1, 0, 0], &mut back);
    assert_eq!(back, vec![hits[0], Hit::new(), Hit::new()]);
}

#[test]
fn masks_are_read_and_written_in_order() {
    let mut lanes = [-1, 0, -1];
    let mut v = ValidityN::new(&mut lanes);
    assert_eq!((v.len(), v.is_empty()), (3, false));
    assert_eq!(v.active_lanes(), vec![0, 2]);
    let mut it = v.iter();
    assert_eq!((it.next(), it.next(), it.next(), it.next()), (Some(-1), Some(0), Some(-1), None));
    let mut it = v.iter_mut();
    *it.next().unwrap() = 0;
    *it.next().unwrap() = -1;
    assert_eq!(v.active_lanes(), vec![1, 2]);
    assert_eq!(lanes, [0, -1, -1]);
}

fn kinds_of_change(change: &CallbackChange<Callback, Data>) -> (bool, bool) {
    (change.call.is_some(), change.released.closure.is_some())
}

#[test]
fn callbacks_of_another_kind_are_ignored() {
    let bounds = || Callback::Bounds(Box::new(|_b, _p, _t, _u| {}));
    let mut tri = new_geometry(GeometryKind::TRIANGLE);
    assert_eq!(kinds_of_change(&tri.set_bounds_function(bounds())), (false, true));
    assert_eq!(kinds_of_change(&tri.set_displacement_function(bounds())), (false, true));
    let mut user = new_geometry(GeometryKind::USER);
    assert_eq!(kinds_of_change(&user.set_bounds_function(bounds())), (true, false));
    let change = user.unset_bounds_function();
    assert_eq!(kinds_of_change(&change), (true, true));
    assert_eq!(
        change.call,
        Some(NativeCall::SetGeometryBoundsFunction { geometry: 11, registered: false })
    );
    assert_eq!(ask_bounds(&user.shared.call_site), Bounds::zero());
}

#[test]
fn a_callback_leaves_the_others_alone() {
    let mut user = new_geometry(GeometryKind::USER);
    user.set_bounds_function_owned(
        Callback::Bounds(Box::new(|b, _p, _t, _u| *b = unit_box())),
        Box::new(1i32),
    );
    user.set_intersect_function_owned(intersector(vec![1.5]), Box::new(2i32));
    let data = |g: &Builder, k| g.callback_data(k).and_then(|d| d.downcast_ref::<i32>().copied());
    assert_eq!(data(&user, CbKind::UserBounds), Some(1));
    assert_eq!(data(&user, CbKind::UserIntersect), Some(2));
    user.unset_intersect_function();
    assert_eq!(data(&user, CbKind::UserBounds), Some(1));
    assert_eq!(data(&user, CbKind::UserIntersect), None);
    assert_eq!(ask_bounds(&user.shared.call_site), unit_box());
}

#[test]
fn displaced_vertices_are_written_in_place() {
    type F = fn(Vertices<'_>);
    let (mut g, _) = Geometry::new::<F, ()>(&DEVICE, GeometryKind::SUBDIVISION, 11);
    let f: F = |vertices| {
        let mut it = vertices.into_iter_mut();
        assert_eq!(it.len(), 2);
        while let Some(v) = it.next() {
            *v.p_x = v.uv[0];
            *v.p_y = v.uv[1];
            *v.p_z = v.ng[2];
        }
    };
    g.set_displacement_function(f);
    let (mut x, mut y, mut z) = ([0; 2], [0; 2], [0; 2]);
    let vertices = Vertices {
        u: &[1, 2],
        v: &[3, 4],
        ng_x: &[5, 6],
        ng_y: &[7, 8],
        ng_z: &[9, 10],
        p_x: &mut x,
        p_y: &mut y,
        p_z: &mut z,
        len: 2,
    };
    let args =
        DisplacementFunctionNArguments { geometry: 11, prim_id: 1, time_step: 2, vertices };
    let call = displacement_function(&g.shared.call_site, args).unwrap();
    assert_eq!((call.geometry, call.prim_id, call.time_step), (11, 1, 2));
    (call.closure)(call.vertices);
    assert_eq!((x, y, z), ([1, 2], [3, 4], [9, 10]));
}

#[test]
fn each_kind_has_a_slot_of_its_own() {
    let kinds = [
        CbKind::IntersectFilter,
        CbKind::OccludedFilter,
        CbKind::UserIntersect,
        CbKind::UserOccluded,
        CbKind::UserBounds,
        CbKind::Displacement,
    ];
    assert_eq!(CbKind::COUNT, kinds.len());
    for (i, k) in kinds.iter().enumerate() {
        assert_eq!(k.index(), i);
    }
}
