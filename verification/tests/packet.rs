//! Packets of rays and hits.

use embree3::{
    Hit, Hit16, Hit4, Hit8, HitN, HitPacket, Ray, Ray16, Ray4, Ray8, RayHit, RayHit16, RayHit4,
    RayHit8, RayHitN, RayHitPacket, RayN, RayPacket, SoAHit, SoARay, INVALID_ID,
};

fn bits3(v: [f32; 3]) -> [u32; 3] {
    [v[0].to_bits(), v[1].to_bits(), v[2].to_bits()]
}

/// The words of a packet of four rays, column after column.
fn ray4_words(r: &Ray4) -> Vec<u32> {
    let mut words = Vec::new();
    for column in [
        r.org_x, r.org_y, r.org_z, r.tnear, r.dir_x, r.dir_y, r.dir_z, r.time, r.tfar, r.mask,
        r.id, r.flags,
    ] {
        words.extend_from_slice(&column);
    }
    words
}

/// The words of a packet of four hits, column after column.
fn hit4_words(h: &Hit4) -> Vec<u32> {
    let mut words = Vec::new();
    for column in [h.Ng_x, h.Ng_y, h.Ng_z, h.u, h.v, h.primID, h.geomID, h.instID[0]] {
        words.extend_from_slice(&column);
    }
    words
}

fn known_hit() -> Hit {
    Hit {
        Ng_x: 1.0f32.to_bits(),
        Ng_y: 2.0f32.to_bits(),
        Ng_z: 3.0f32.to_bits(),
        u: 0.5f32.to_bits(),
        v: 0.6f32.to_bits(),
        primID: 7,
        geomID: 9,
        instID: [11],
    }
}

#[test]
fn ray_n_org_in_bounds_ok() {
    let mut buf = [0u32; 12 * 4];
    let r = RayN::new(&mut buf, 4);
    assert_eq!(r.org(3), bits3([0.0, 0.0, 0.0]));
}

#[test]
fn gather_unchecked_matches_checked_ray() {
    let mut r4 = Ray4::new(
        [
            bits3([1.0, 2.0, 3.0]),
            bits3([4.0, 5.0, 6.0]),
            bits3([7.0, 8.0, 9.0]),
            bits3([10.0, 11.0, 12.0]),
        ],
        [
            bits3([0.1, 0.2, 0.3]),
            bits3([0.4, 0.5, 0.6]),
            bits3([0.7, 0.8, 0.9]),
            bits3([1.0, 1.1, 1.2]),
        ],
    );
    for i in 0..4 {
        r4.set_tfar(i, (100.0 + i as f32).to_bits());
        r4.set_time(i, (0.25 * i as f32).to_bits());
        r4.set_mask(i, i as u32 + 1);
        r4.set_id(i, i as u32 * 7);
        r4.set_flags(i, i as u32 + 3);
    }
    let mut words = ray4_words(&r4);
    let view = RayN::new(&mut words, 4);
    for i in 0..4 {
        let u = view.gather_unchecked(i);
        assert_eq!([u.org_x, u.org_y, u.org_z], view.org(i));
        assert_eq!([u.dir_x, u.dir_y, u.dir_z], view.dir(i));
        assert_eq!(u.tnear, view.tnear(i));
        assert_eq!(u.tfar, view.tfar(i));
        assert_eq!(u.time, view.time(i));
        assert_eq!(u.mask, view.mask(i));
        assert_eq!(u.id, view.id(i));
        assert_eq!(u.flags, view.flags(i));
        // The view reads what the packet holds.
        assert_eq!(view.org(i), r4.org(i));
        assert_eq!(u.tfar, (100.0 + i as f32).to_bits());
    }
}

#[test]
fn scatter_unchecked_matches_checked_hit() {
    let mut words = hit4_words(&Hit4::new());
    let mut view = HitN::new(&mut words, 4);
    view.scatter_unchecked(2, &known_hit());
    assert_eq!(view.normal(2), bits3([1.0, 2.0, 3.0]));
    assert_eq!(view.uv(2), [0.5f32.to_bits(), 0.6f32.to_bits()]);
    assert_eq!(view.prim_id(2), 7);
    assert_eq!(view.geom_id(2), 9);
    assert_eq!(view.inst_id(2), 11);
    // The other lanes are left alone.
    assert!(!view.is_valid(1));
    assert!(!view.is_valid(3));
}

#[test]
fn gather_unchecked_matches_checked_hit() {
    let mut words = hit4_words(&Hit4::new());
    let mut view = HitN::new(&mut words, 4);
    let hit = known_hit();
    view.set_normal(1, [hit.Ng_x, hit.Ng_y, hit.Ng_z]);
    view.set_uv(1, [hit.u, hit.v]);
    view.set_prim_id(1, hit.primID);
    view.set_geom_id(1, hit.geomID);
    view.set_inst_id(1, hit.instID[0]);

    let g = view.gather_unchecked(1);
    assert_eq!([g.Ng_x, g.Ng_y, g.Ng_z], view.normal(1));
    assert_eq!([g.u, g.v], view.uv(1));
    assert_eq!(g.primID, view.prim_id(1));
    assert_eq!(g.geomID, view.geom_id(1));
    assert_eq!(g.instID[0], view.inst_id(1));
}

#[test]
fn rays_and_hits_of_a_packet_lie_apart() {
    let mut words = vec![0u32; 20 * 3];
    let mut packet = RayHitN::new(&mut words, 3);
    assert_eq!(packet.len(), 3);
    assert!(!packet.is_empty());
    packet.ray_n().set_flags(2, 77);
    packet.hit_n().scatter_unchecked(0, &known_hit());
    assert_eq!(packet.ray_n().flags(2), 77);
    assert_eq!(packet.hit_n().gather_unchecked(0), known_hit());
    assert_eq!(words[11 * 3 + 2], 77);
    assert_eq!(words[12 * 3], 1.0f32.to_bits());
}

#[test]
fn rays_and_hits_of_a_packet_are_held_together() {
    let mut words = vec![0u32; 20 * 2];
    let mut packet = RayHitN::new(&mut words, 2);
    let (mut rays, mut hits) = packet.split();
    rays.set_flags(1, 77);
    hits.scatter_unchecked(rays.len() - 1, &known_hit());
    assert_eq!((rays.flags(1), hits.geom_id(1)), (77, 9));
    assert_eq!(words[11 * 2 + 1], 77);
    assert_eq!(words[12 * 2 + 1], 1.0f32.to_bits());
}

#[test]
fn a_far_distance_is_set_in_one_lane() {
    let mut words = vec![5u32; 12 * 4];
    let mut rays = RayN::new(&mut words, 4);
    let before = rays.gather_unchecked(1);
    rays.set_tfar_unchecked(2, 9);
    assert_eq!(rays.gather_unchecked(2), Ray { tfar: 9, ..before });
    assert_eq!(rays.gather_unchecked(1), before);
}

#[test]
fn new_rays_reach_to_infinity() {
    let inf = f32::INFINITY.to_bits();
    let r = Ray::new(bits3([1.0, 2.0, 3.0]), bits3([0.0, 0.0, 1.0]));
    assert_eq!((r.tnear, r.tfar, r.time), (0, inf, 0));
    assert_eq!((r.mask, r.id, r.flags), (u32::MAX, 0, 0));
    let r8 = Ray8::new([bits3([1.0, 2.0, 3.0]); 8], [bits3([0.0, 0.0, 1.0]); 8]);
    assert_eq!(r8.org(7), bits3([1.0, 2.0, 3.0]));
    assert_eq!((r8.tnear(7), r8.tfar(7), r8.mask(7)), (0, inf, u32::MAX));
    let s = Ray16::segment([[1; 3]; 16], [[2; 3]; 16], [3; 16], [4; 16]);
    assert_eq!((s.tnear(15), s.tfar(15)), (3, 4));
}

#[test]
fn an_empty_packet_has_no_direction() {
    let e = Ray4::empty();
    assert_eq!((e.org(3), e.dir(3)), ([0; 3], [0; 3]));
    assert_eq!((e.tnear(0), e.tfar(0)), (0, f32::INFINITY.to_bits()));
    let d = Ray4::default();
    assert_eq!((d.tnear, d.tfar, d.mask), (e.tnear, e.tfar, e.mask));
}

#[test]
fn hits_are_found_by_their_geometry() {
    let mut h = Hit8::new();
    assert!(!h.any_hit());
    assert_eq!(h.iter_validity(), vec![false; 8]);
    assert_eq!(h.geomID, [INVALID_ID; 8]);
    h.set_geom_id(2, 4);
    h.set_geom_id(6, 5);
    assert!(h.any_hit());
    assert!(h.is_valid(2) && h.is_valid(6) && !h.is_valid(3));
    assert_eq!(
        h.iter_validity(),
        vec![false, false, true, false, false, false, true, false]
    );
    // The hits are looked for among the first four lanes.
    let found: Vec<usize> = h.iter_hits().iter().map(|r| r.idx).collect();
    assert_eq!(found, vec![2]);
}

#[test]
fn iterators_visit_every_lane_once() {
    let mut r = Ray4::empty();
    let mut writer = r.iter_mut();
    while let Some(lane) = writer.next() {
        lane.packet.set_id(lane.idx, 10 + lane.idx as u32);
    }
    assert_eq!(r.id, [10, 11, 12, 13]);
    let mut it = r.iter();
    let mut ids = Vec::new();
    while let Some(lane) = it.next() {
        ids.push(lane.packet.id(lane.idx));
    }
    assert_eq!(ids, vec![10, 11, 12, 13]);
    assert!(it.next().is_none());

    let rh = RayHit4::new(r);
    let mut pairs = rh.iter();
    let mut n = 0;
    while let Some((ray, hit)) = pairs.next() {
        assert_eq!(ray.packet.id(ray.idx), 10 + n);
        assert!(!hit.is_valid());
        n += 1;
    }
    assert_eq!(n, 4);
}

#[test]
fn packet_widths() {
    assert_eq!(<Ray as RayPacket>::LEN, 1);
    assert_eq!(<Hit as HitPacket>::LEN, 1);
    assert_eq!(<RayHit as RayHitPacket>::LEN, 1);
    assert_eq!((<Ray4 as RayPacket>::LEN, <Hit4 as HitPacket>::LEN), (4, 4));
    assert_eq!((<Ray16 as RayPacket>::LEN, <Hit16 as HitPacket>::LEN), (16, 16));
    assert_eq!(<RayHit8 as RayHitPacket>::LEN, 8);
    assert_eq!(<RayHit16 as RayHitPacket>::LEN, 16);
}

#[test]
fn a_single_ray_starts_without_a_hit() {
    let rh = RayHit::new(Ray::segment([1; 3], [2; 3], 3, 4));
    assert!(!rh.hit.is_valid());
    assert_eq!(rh.hit, Hit::new());
    assert_eq!((rh.ray.tnear, rh.ray.tfar), (3, 4));
}
