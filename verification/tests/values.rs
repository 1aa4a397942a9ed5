//! Plain values: masks, contexts, transformations, boxes, interpolation output.

use embree3::{
    AsIntersectContext, Bounds, BufferUsage, Device, Geometry, GeometryBuilder, GeometryKind,
    GeometryStore, IntersectContext, IntersectContextExt, IntersectContextFlags, InterpolateInput,
    InterpolateNInput, InterpolateOutput, NativeCall, PointQueryContext, QuaternionDecomposition,
    ValidMask, ValidMaskN, INVALID_ID,
};

fn committed(kind: GeometryKind) -> Geometry {
    let mut store = GeometryStore::new();
    let device = Device { handle: 7 };
    let (b, _): (GeometryBuilder<'static, (), ()>, _) = Geometry::new(&device, kind, 11);
    b.commit(&mut store).0
}

#[test]
fn masks_compare_with_native_values() {
    assert_eq!(ValidMask::Valid.to_native(), -1);
    assert_eq!(ValidMask::Invalid.to_native(), 0);
    assert!(ValidMask::Valid == -1 && ValidMask::Valid != 0);
    assert!(0 == ValidMask::Invalid && 1 != ValidMask::Valid);
    assert_eq!(!ValidMask::Valid, ValidMask::Invalid);
    assert_eq!(!&ValidMask::Invalid, ValidMask::Valid);
    assert_eq!(!!ValidMask::Valid, ValidMask::Valid);
    let m = ValidMaskN::from([ValidMask::Invalid, ValidMask::Valid]);
    assert_eq!(m.native(), [0, -1]);
    assert_eq!(ValidMaskN::new([ValidMask::Valid; 4]).native(), [-1; 4]);
}

#[test]
fn contexts_start_outside_every_instance() {
    let c = IntersectContext::coherent();
    assert_eq!(c.flags, IntersectContextFlags::COHERENT);
    assert_eq!(c.instID, [INVALID_ID]);
    assert!(c.filter.is_none());
    assert_eq!(IntersectContext::incoherent().flags, IntersectContextFlags::INCOHERENT);
    let mut e = IntersectContextExt::incoherent(5u8);
    assert_eq!(e.as_extended(), Some(&5));
    *e.as_mut_extended().unwrap() = 6;
    e.as_mut_context().instID = [3];
    assert_eq!((e.ext, e.as_context().instID), (6, [3]));
    assert!(c.as_extended().is_none());

    let q = PointQueryContext::new();
    assert_eq!((q.instID, q.instStackSize), ([INVALID_ID], 0));
}

#[test]
fn the_identity_decomposition() {
    let one = 1.0f32.to_bits();
    let mut q = QuaternionDecomposition::identity();
    assert_eq!(q.scale(), [one; 3]);
    assert_eq!(q.skew(), [0; 3]);
    assert_eq!(q.shift(), [0; 3]);
    assert_eq!(q.quaternion(), [one, 0, 0, 0]);
    assert_eq!(QuaternionDecomposition::default(), q);
    q.set_scale([1, 2, 3]);
    q.set_skew([4, 5, 6]);
    q.set_shift([7, 8, 9]);
    q.set_quaternion([10, 11, 12, 13]);
    q.set_translation([14, 15, 16]);
    assert_eq!((q.scale(), q.skew(), q.shift()), ([1, 2, 3], [4, 5, 6], [7, 8, 9]));
    assert_eq!(q.quaternion(), [10, 11, 12, 13]);
    assert_eq!([q.translation_x, q.translation_y, q.translation_z], [14, 15, 16]);
}

#[test]
fn boxes_give_their_corners() {
    let b = Bounds {
        lower_x: 1,
        lower_y: 2,
        lower_z: 3,
        align0: 0,
        upper_x: 4,
        upper_y: 5,
        upper_z: 6,
        align1: 0,
    };
    assert_eq!((b.lower(), b.upper()), ([1, 2, 3], [4, 5, 6]));
    let inf = f32::INFINITY.to_bits();
    assert_eq!(Bounds::default().lower(), [inf; 3]);
    assert_eq!(Bounds::zero().upper(), [0; 3]);
}

#[test]
fn interpolated_attributes_lie_one_after_the_other() {
    let mut out = InterpolateOutput::new(2, true, false, true);
    assert_eq!(out.value_count(), 2);
    assert!(out.dp_du().is_none() && out.dp_dv().is_none());
    out.p_mut().unwrap().copy_from_slice(&[1, 2]);
    out.ddp_du_du_mut().unwrap().copy_from_slice(&[3, 4]);
    out.ddp_dv_dv_mut().unwrap().copy_from_slice(&[5, 6]);
    out.ddp_du_dv_mut().unwrap().copy_from_slice(&[7, 8]);
    assert_eq!(out.buffer[..8], [1, 2, 3, 4, 5, 6, 7, 8]);
    assert_eq!(out.p(), Some(&[1, 2][..]));
    assert_eq!(out.ddp_du_du(), Some(&[3, 4][..]));
    assert_eq!(out.ddp_dv_dv(), Some(&[5, 6][..]));
    assert_eq!(out.ddp_du_dv(), Some(&[7, 8][..]));
    assert!(out.dp_du_mut().is_none() && out.dp_dv_mut().is_none());

    let mut first = InterpolateOutput::new(3, false, true, false);
    assert!(first.p().is_none() && first.p_mut().is_none());
    first.dp_dv_mut().unwrap().copy_from_slice(&[7, 8, 9]);
    assert_eq!(first.dp_du(), Some(&[0, 0, 0][..]));
    assert_eq!(first.dp_dv(), Some(&[7, 8, 9][..]));
    assert_eq!(first.targets.dp_dv, Some(3));
}

#[test]
fn interpolation_is_asked_with_its_targets() {
    let g = committed(GeometryKind::TRIANGLE);
    let mut out = InterpolateOutput::new(3, true, true, false);
    let input =
        InterpolateInput { prim_id: 4, u: 1, v: 2, usage: BufferUsage::VERTEX, slot: 0 };
    match g.interpolate(input, &mut out) {
        NativeCall::Interpolate { geometry: 11, prim_id: 4, u: 1, v: 2, targets, .. } => {
            assert_eq!(targets, out.targets);
        }
        other => panic!("unexpected {other:?}"),
    }
    let mut out = InterpolateOutput::new(3 * 4, true, false, false);
    let valid = [u32::MAX; 4];
    let input = InterpolateNInput {
        valid: Some(&valid),
        prim_id: &[0, 1, 2, 3],
        u: &[0; 4],
        v: &[0; 4],
        usage: BufferUsage::VERTEX,
        slot: 0,
        n: 4,
    };
    let asked = g.interpolate_n(input, &mut out);
    assert!(matches!(
        asked.call,
        NativeCall::InterpolateN { geometry: 11, n: 4, masked: true, .. }
    ));
    assert_eq!(asked.valid, Some(&valid[..]));
    assert_eq!((asked.prim_id, asked.u, asked.v), (input.prim_id, input.u, input.v));
    let asked = g.interpolate_n(InterpolateNInput { valid: None, ..input }, &mut out);
    assert!(matches!(asked.call, NativeCall::InterpolateN { masked: false, .. }));
    assert_eq!(asked.valid, None);
}

#[test]
fn half_edges_are_asked_of_subdivisions() {
    let g = committed(GeometryKind::SUBDIVISION);
    assert_eq!(
        g.get_first_half_edge(1),
        NativeCall::GetGeometryFirstHalfEdge { geometry: 11, face: 1 }
    );
    assert_eq!(g.get_face(2), NativeCall::GetGeometryFace { geometry: 11, edge: 2 });
    assert_eq!(
        g.get_next_half_edge(3),
        NativeCall::GetGeometryNextHalfEdge { geometry: 11, edge: 3 }
    );
    assert_eq!(
        g.get_previous_half_edge(4),
        NativeCall::GetGeometryPreviousHalfEdge { geometry: 11, edge: 4 }
    );
    assert_eq!(
        g.get_opposite_half_edge(5, 6),
        NativeCall::GetGeometryOppositeHalfEdge { geometry: 11, topology: 5, edge: 6 }
    );
}

#[test]
fn a_transform_is_asked_of_an_instance() {
    let mut g = committed(GeometryKind::INSTANCE);
    let time = 0.5f32.to_bits();
    assert!(matches!(
        g.get_transform(time),
        NativeCall::GetGeometryTransform { geometry: 11, time: t, .. } if t == time
    ));
}
