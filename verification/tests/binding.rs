//! Binding and mapping of geometry buffers. The tests stand in for the native
//! library: they hand out handles and addresses.

use embree3::attachments::AttachedBuffer;
use embree3::{
    Bound, Buffer, BufferLayout, BufferSize, BufferSource, BufferUsage, ByteRange, Device, Error,
    Format, Geometry, GeometryBuilder, GeometryKind, GeometryStore, NativeCall, Scene,
    SharedBinding,
};

type Builder<'a> = GeometryBuilder<'a, (), ()>;
type Store<'a> = GeometryStore<'a, (), ()>;

const DEVICE: Device = Device { handle: 7 };

fn geometry<'a>(kind: GeometryKind, handle: usize) -> Builder<'a> {
    Geometry::new(&DEVICE, kind, handle).0
}

fn float_bytes(s: &[[f32; 3]]) -> Vec<u8> {
    s.iter().flatten().flat_map(|f| f.to_ne_bytes()).collect()
}

/// Asks for new storage of elements of `T` and binds it at `address`.
fn bind_new<T>(
    g: &mut Builder<'_>,
    usage: BufferUsage,
    slot: u32,
    format: Format,
    stride: usize,
    count: usize,
    address: usize,
) -> usize {
    let call = g.set_new_buffer::<T>(usage, slot, format, stride, count).unwrap();
    assert_eq!(
        call,
        NativeCall::SetNewGeometryBuffer {
            geometry: g.handle(),
            usage,
            slot,
            format,
            stride,
            item_count: count,
        }
    );
    let bound = g.bind_new_buffer::<T>(usage, slot, format, stride, count, address, Error::NONE);
    bound.unwrap().0
}

/// A triangle whose vertices lie at `vertices` and its indices at `indices`.
fn unit_triangle<'a>(vertices: usize, indices: usize) -> Builder<'a> {
    let mut tri = geometry(GeometryKind::TRIANGLE, 11);
    let n = bind_new::<[f32; 3]>(
        &mut tri,
        BufferUsage::VERTEX,
        0,
        Format::FLOAT3,
        12,
        3,
        vertices,
    );
    assert_eq!(n, 3);
    let n =
        bind_new::<[u32; 3]>(&mut tri, BufferUsage::INDEX, 0, Format::UINT3, 12, 1, indices);
    assert_eq!(n, 1);
    tri
}

/// Whether the ray through (0.25, 0.25) along z hits the triangle `v`.
fn center_ray_hits(v: &[[f32; 3]]) -> bool {
    let side = |a: [f32; 3], b: [f32; 3]| {
        (b[0] - a[0]) * (0.25 - a[1]) - (b[1] - a[1]) * (0.25 - a[0]) >= 0.0
    };
    side(v[0], v[1]) && side(v[1], v[2]) && side(v[2], v[0])
}

/// Plays the part of the native library on a bound shared buffer: the vertices
/// that it reads from the data that goes along.
fn vertices_read(binding: &SharedBinding<'_>) -> Vec<[f32; 3]> {
    match binding.call {
        NativeCall::SetSharedGeometryBuffer { byte_offset, stride, item_count, .. } => {
            let d = binding.data;
            let word = |at: usize| f32::from_ne_bytes([d[at], d[at + 1], d[at + 2], d[at + 3]]);
            (0..item_count)
                .map(|i| {
                    let at = byte_offset + i * stride;
                    [word(at), word(at + 4), word(at + 8)]
                })
                .collect()
        }
        _ => panic!("not a shared buffer"),
    }
}

#[test]
fn shared_vertex_buffer_reads_from_pre_sliced_offset() {
    let k = 4;
    let mut verts: Vec<[f32; 3]> = vec![[9.0; 3]; k];
    verts.extend_from_slice(&[[0.0, 0.0, 0.0], [1.0, 0.0, 0.0], [0.0, 1.0, 0.0]]);
    verts.extend_from_slice(&[[0.0; 3]; 2]);
    let bytes = float_bytes(&verts);

    let base = 0x1000;
    let mut tri = geometry(GeometryKind::TRIANGLE, 11);
    let binding = tri
        .set_shared_buffer_at(
            BufferUsage::VERTEX,
            0,
            Format::FLOAT3,
            &bytes[k * 12..],
            base + k * 12,
            12,
            3,
        )
        .unwrap();
    assert!(binding.due.is_empty());
    assert_eq!(binding.data.as_ptr(), bytes[k * 12..].as_ptr());
    let read = vertices_read(&binding);
    assert_eq!(read, verts[k..k + 3]);
    assert!(center_ray_hits(&read));
}

#[test]
fn validation_rejects_unsound_shared_bindings() {
    let tight = float_bytes(&[[0.0f32; 3]; 8]);
    assert_eq!(tight.len(), 96);
    let mut geom = geometry(GeometryKind::TRIANGLE, 11);
    for (format, stride, count) in [
        (Format::FLOAT3, 12, 8),
        (Format::FLOAT3, 12, 0),
        (Format::FLOAT3, 8, 4),
        (Format::UNDEFINED, 12, 4),
    ] {
        assert_eq!(
            geom.set_shared_buffer(BufferUsage::VERTEX, 0, format, &tight, stride, count).err(),
            Some(Error::INVALID_ARGUMENT)
        );
        assert!(geom.get_buffer(BufferUsage::VERTEX, 0).0.is_none());
    }
}

#[test]
fn new_buffer_round_trips_and_get_buffer_reports_local() {
    let mut geom = geometry(GeometryKind::TRIANGLE, 11);
    let mut storage = [[0.0f32; 3]; 4];
    let address = storage.as_ptr() as usize;
    let n = bind_new::<[f32; 3]>(
        &mut geom,
        BufferUsage::VERTEX,
        0,
        Format::FLOAT3,
        12,
        4,
        address,
    );
    storage[..n].copy_from_slice(&[[1.0; 3], [2.0; 3], [3.0; 3], [4.0; 3]]);

    match geom.get_buffer(BufferUsage::VERTEX, 0) {
        (Some(BufferSource::Local { layout, size }), None) => {
            assert_eq!(layout.count, 4);
            assert_eq!(layout.stride, 12);
            assert_eq!(layout.format, Format::FLOAT3);
            assert_eq!(size.get(), 48);
        }
        other => panic!("expected a Local buffer source, got {other:?}"),
    }
}

#[test]
fn typed_shared_slice_binds_a_hittable_triangle() {
    let verts: [[f32; 4]; 3] =
        [[0.0, 0.0, 0.0, 0.0], [1.0, 0.0, 0.0, 0.0], [0.0, 1.0, 0.0, 0.0]];
    let idx: [[u32; 3]; 1] = [[0, 1, 2]];
    let vert_bytes: Vec<u8> = verts.iter().flatten().flat_map(|f| f.to_ne_bytes()).collect();
    let idx_bytes: Vec<u8> = idx.iter().flatten().flat_map(|i| i.to_ne_bytes()).collect();

    let mut tri = geometry(GeometryKind::TRIANGLE, 11);
    let binding = tri
        .set_shared_slice::<[f32; 4]>(
            BufferUsage::VERTEX,
            0,
            Format::FLOAT3,
            &vert_bytes,
            0x1000,
        )
        .unwrap();
    assert!(center_ray_hits(&vertices_read(&binding)));
    let binding = tri
        .set_shared_slice::<[u32; 3]>(BufferUsage::INDEX, 0, Format::UINT3, &idx_bytes, 0x2000)
        .unwrap();
    assert_eq!(
        binding.call,
        NativeCall::SetSharedGeometryBuffer {
            geometry: 11,
            usage: BufferUsage::INDEX,
            slot: 0,
            format: Format::UINT3,
            byte_offset: 0,
            stride: 12,
            item_count: 1,
        }
    );
    assert_eq!(binding.data, &idx_bytes[..]);
    assert_eq!(binding.due, vec![]);
}

#[test]
fn typed_managed_slice_binds_subrange() {
    let size = BufferSize::new(3 * std::mem::size_of::<[f32; 4]>()).unwrap();
    let mut buf = Buffer::new(&DEVICE, size, 21, Error::NONE).unwrap();
    let all = ByteRange { start: Bound::Unbounded, end: Bound::Unbounded };
    let mut memory = [[0.0f32; 4]; 3];
    buf.mapped_range_mut(&mut memory, all).as_mut_slice().copy_from_slice(&[
        [0.0, 0.0, 0.0, 0.0],
        [1.0, 0.0, 0.0, 0.0],
        [0.0, 1.0, 0.0, 0.0],
    ]);

    let mut tri = geometry(GeometryKind::TRIANGLE, 11);
    let items = ByteRange { start: Bound::Included(0), end: Bound::Excluded(3) };
    let calls = tri
        .set_managed_slice::<[f32; 4]>(BufferUsage::VERTEX, 0, Format::FLOAT3, &buf, items)
        .unwrap();
    assert_eq!(
        calls,
        vec![
            NativeCall::SetGeometryBuffer {
                geometry: 11,
                usage: BufferUsage::VERTEX,
                slot: 0,
                format: Format::FLOAT3,
                buffer: 21,
                byte_offset: 0,
                stride: 16,
                item_count: 3,
            },
            NativeCall::RetainBuffer { buffer: 21 },
        ]
    );
    let read: Vec<[f32; 3]> = memory.iter().map(|v| [v[0], v[1], v[2]]).collect();
    assert!(center_ray_hits(&read));
    // A later range starts where its first item lies.
    let items = ByteRange { start: Bound::Included(1), end: Bound::Unbounded };
    let calls = tri
        .set_managed_slice::<[f32; 4]>(BufferUsage::VERTEX, 1, Format::FLOAT3, &buf, items)
        .unwrap();
    assert!(matches!(
        calls[0],
        NativeCall::SetGeometryBuffer { byte_offset: 16, item_count: 2, stride: 16, .. }
    ));
    // Past the end of the buffer.
    let items = ByteRange { start: Bound::Included(1), end: Bound::Excluded(4) };
    assert_eq!(
        tri.set_managed_slice::<[f32; 4]>(BufferUsage::VERTEX, 1, Format::FLOAT3, &buf, items),
        Err(Error::INVALID_ARGUMENT)
    );
}

#[test]
fn builder_map_refill_round_trips() {
    let mut vertices = [[0.0f32, 0.0, 0.0], [1.0, 0.0, 0.0], [0.0, 1.0, 0.0]];
    let address = vertices.as_ptr() as usize;
    let mut tri = unit_triangle(address, 0x2000);

    let moved = [[5.0, 0.0, 0.0], [6.0, 0.0, 0.0], [5.0, 1.0, 0.0]];
    let (at, n) =
        tri.map_buffer_mut::<[f32; 3]>(BufferUsage::VERTEX, 0, address).unwrap();
    assert_eq!(at, address);
    vertices[..n].copy_from_slice(&moved);

    let (at, n) = tri.map_buffer::<[f32; 3]>(BufferUsage::VERTEX, 0, address).unwrap();
    assert_eq!((at, n), (address, 3));
    assert_eq!(vertices[..n], moved);
}

#[test]
fn committed_read_map_sees_build_phase_writes() {
    let mut vertices = [[0.0f32, 0.0, 0.0], [1.0, 0.0, 0.0], [0.0, 1.0, 0.0]];
    let address = vertices.as_ptr() as usize;
    let mut tri = unit_triangle(address, 0x2000);
    let moved = [[2.0, 0.0, 0.0], [3.0, 0.0, 0.0], [2.0, 1.0, 0.0]];
    let (_, n) = tri.map_buffer_mut::<[f32; 3]>(BufferUsage::VERTEX, 0, address).unwrap();
    vertices[..n].copy_from_slice(&moved);

    let mut store = Store::new();
    let (geom, call) = tri.commit(&mut store);
    assert_eq!(call, NativeCall::CommitGeometry { geometry: 11 });
    let (at, n) = geom
        .map_buffer::<(), (), [f32; 3]>(&store, BufferUsage::VERTEX, 0, address)
        .unwrap();
    assert_eq!(at, address);
    assert_eq!(vertices[..n], moved);
}

#[test]
fn dynamic_edit_through_scene_moves_geometry() {
    let mut vertices = [[0.0f32, 0.0, 0.0], [1.0, 0.0, 0.0], [0.0, 1.0, 0.0]];
    let address = vertices.as_ptr() as usize;
    let mut store = Store::new();
    let mut scene: Scene<()> = Scene::new(DEVICE, 31, Error::NONE).unwrap();
    let (tri, _) = unit_triangle(address, 0x2000).commit(&mut store);
    let id = 0;
    assert!(scene.attach_geometry(&mut store, &tri, id).is_empty());
    assert!(center_ray_hits(&vertices));

    assert_eq!(
        scene.geometry_buffer_request(&store, id, BufferUsage::VERTEX, 0),
        Ok(NativeCall::GetGeometryBufferData { geometry: 11, usage: BufferUsage::VERTEX, slot: 0 })
    );
    for (step, hits) in [(10.0, false), (-10.0, true)] {
        let (at, written) = scene
            .with_geometry_buffer_mut::<(), (), [f32; 3]>(
                &store,
                id,
                BufferUsage::VERTEX,
                0,
                address,
            )
            .unwrap();
        assert_eq!((at, written), (address, 3));
        for v in vertices[..written].iter_mut() {
            v[0] += step;
        }
        assert_eq!(
            scene.update_geometry_buffer(id, BufferUsage::VERTEX, 0),
            Some(NativeCall::UpdateGeometryBuffer {
                geometry: 11,
                usage: BufferUsage::VERTEX,
                slot: 0,
            })
        );
        assert_eq!(
            scene.commit_geometry(id),
            Some(NativeCall::CommitGeometry { geometry: 11 })
        );
        assert_eq!(scene.commit(), NativeCall::CommitScene { scene: 31 });
        assert_eq!(center_ray_hits(&vertices), hits);
    }
}

#[test]
fn map_rejects_invalid_requests() {
    let vertices = [[0.0f32, 0.0, 0.0], [1.0, 0.0, 0.0], [0.0, 1.0, 0.0]];
    let address = vertices.as_ptr() as usize;
    let mut store = Store::new();
    let (geom, _) = unit_triangle(address, 0x2000).commit(&mut store);

    assert_eq!(
        geom.map_buffer::<(), (), [f32; 3]>(&store, BufferUsage::VERTEX, 5, address),
        Err(Error::INVALID_ARGUMENT),
        "an unbound slot must not map"
    );
    assert_eq!(
        geom.map_buffer::<(), (), [f32; 4]>(&store, BufferUsage::VERTEX, 0, address),
        Err(Error::INVALID_ARGUMENT),
        "an element type that does not tile the allocation must be rejected"
    );
    let mut scene: Scene<()> = Scene::new(DEVICE, 31, Error::NONE).unwrap();
    assert_eq!(
        scene.geometry_buffer_request(&store, 999, BufferUsage::VERTEX, 0),
        Err(Error::INVALID_ARGUMENT)
    );
    assert_eq!(
        scene.with_geometry_buffer_mut::<(), (), [f32; 3]>(
            &store,
            999,
            BufferUsage::VERTEX,
            0,
            address,
        ),
        Err(Error::INVALID_ARGUMENT),
        "mapping an unattached geometry id must fail"
    );
    // No storage, a type without size, and a misaligned address.
    for (r, why) in [
        (geom.map_buffer::<(), (), [f32; 3]>(&store, BufferUsage::VERTEX, 0, 0), "null"),
        (geom.map_buffer::<(), (), ()>(&store, BufferUsage::VERTEX, 0, address), "unsized"),
        (geom.map_buffer::<(), (), [f32; 3]>(&store, BufferUsage::VERTEX, 0, 0x1002), "misaligned"),
    ] {
        assert_eq!(r, Err(Error::INVALID_ARGUMENT), "{why}");
    }
}

#[test]
fn shared_data_is_bound_where_it_lies() {
    let words = [0u32; 8];
    let bytes: Vec<u8> = words.iter().flat_map(|w| w.to_ne_bytes()).collect();
    let mut geom = geometry(GeometryKind::TRIANGLE, 11);
    let aligned = bytes.as_ptr() as usize % 4 == 0;
    let start = if aligned { 0 } else { 4 - bytes.as_ptr() as usize % 4 };
    let data = &bytes[start..start + 24];
    let binding =
        geom.set_shared_buffer(BufferUsage::INDEX, 0, Format::UINT3, data, 12, 2).unwrap();
    assert!(matches!(binding.call, NativeCall::SetSharedGeometryBuffer { geometry: 11, .. }));
    assert_eq!(binding.data.as_ptr(), data.as_ptr());
    // One byte further on it is misaligned.
    let off = &bytes[start + 1..start + 25];
    assert_eq!(
        geom.set_shared_buffer(BufferUsage::INDEX, 0, Format::UINT3, off, 12, 2).err(),
        Some(Error::INVALID_ARGUMENT)
    );
    match geom.get_buffer(BufferUsage::INDEX, 0) {
        (Some(BufferSource::Shared { data: d, layout }), None) => {
            assert_eq!(d, data);
            assert_eq!(layout, BufferLayout { format: Format::UINT3, stride: 12, count: 2 });
        }
        other => panic!("expected the shared data, got {other:?}"),
    }
}

#[test]
fn vertex_attributes_need_a_kind_that_has_them() {
    let data = [0u8; 64];
    for kind in [GeometryKind::GRID, GeometryKind::USER, GeometryKind::INSTANCE] {
        let mut g = geometry(kind, 11);
        assert_eq!(
            g.set_shared_buffer_at(
                BufferUsage::VERTEX_ATTRIBUTE,
                0,
                Format::FLOAT4,
                &data,
                0x1000,
                16,
                4
            )
            .err(),
            Some(Error::INVALID_OPERATION)
        );
        assert_eq!(g.set_vertex_attribute_count(1), None);
    }
    let mut g = geometry(GeometryKind::QUAD, 11);
    assert_eq!(
        g.set_vertex_attribute_count(2),
        Some(NativeCall::SetGeometryVertexAttributeCount { geometry: 11, count: 2 })
    );
}

#[test]
fn a_displaced_native_buffer_is_released() {
    let size = BufferSize::new(48).unwrap();
    let b = Buffer::new(&DEVICE, size, 21, Error::NONE).unwrap();
    let c = Buffer::new(&DEVICE, size, 22, Error::NONE).unwrap();
    let all = ByteRange { start: Bound::Unbounded, end: Bound::Unbounded };
    let mut g = geometry(GeometryKind::TRIANGLE, 11);
    let bind = |g: &mut Builder<'_>, b: &Buffer| {
        g.set_managed_buffer(BufferUsage::INDEX, 0, Format::UINT3, b, all, 12, 4).unwrap()
    };
    assert_eq!(bind(&mut g, &b).len(), 2);
    assert_eq!(
        bind(&mut g, &c)[1..],
        [NativeCall::RetainBuffer { buffer: 22 }, NativeCall::ReleaseBuffer { buffer: 21 }]
    );
    match g.get_buffer(BufferUsage::INDEX, 0) {
        (Some(BufferSource::Managed { buffer, byte_offset: 0, .. }), Some(retain)) => {
            assert_eq!(buffer, c);
            assert_eq!(retain, NativeCall::RetainBuffer { buffer: 22 });
        }
        other => panic!("expected the managed buffer, got {other:?}"),
    }
    // Shared data in its place releases it too.
    let data = [0u8; 48];
    let mut other = geometry(GeometryKind::TRIANGLE, 12);
    bind(&mut other, &b);
    let binding = other
        .set_shared_buffer_at(BufferUsage::INDEX, 0, Format::UINT3, &data, 0x1000, 12, 4)
        .unwrap();
    assert_eq!(binding.due, vec![NativeCall::ReleaseBuffer { buffer: 21 }]);
    // What is left is released with the geometry.
    let mut store = Store::new();
    let (g, _) = g.commit(&mut store);
    assert_eq!(
        g.release(&mut store),
        vec![
            NativeCall::ReleaseGeometry { geometry: 11 },
            NativeCall::ReleaseBuffer { buffer: 22 },
        ]
    );
}

#[test]
fn ranges_of_native_buffers_are_checked() {
    let size = BufferSize::new(48).unwrap();
    let b = Buffer::new(&DEVICE, size, 21, Error::NONE).unwrap();
    let mut g = geometry(GeometryKind::TRIANGLE, 11);
    let mut bind = |start, end, count| {
        let r = ByteRange { start, end };
        g.set_managed_buffer(BufferUsage::INDEX, 0, Format::UINT3, &b, r, 12, count).err()
    };
    let bad = Some(Error::INVALID_ARGUMENT);
    assert_eq!(bind(Bound::Included(2), Bound::Unbounded, 1), bad); // misaligned
    assert_eq!(bind(Bound::Included(24), Bound::Excluded(12), 1), bad); // backwards
    assert_eq!(bind(Bound::Included(0), Bound::Excluded(49), 1), bad); // past the end
    assert_eq!(bind(Bound::Included(12), Bound::Unbounded, 4), bad); // too short
    assert_eq!(bind(Bound::Included(12), Bound::Unbounded, 3), None);
    assert_eq!(bind(Bound::Excluded(11), Bound::Included(47), 3), None);
}

#[test]
fn failed_storage_binds_nothing() {
    let mut g = geometry(GeometryKind::TRIANGLE, 11);
    let mut bind = |address, error| {
        g.bind_new_buffer::<[u32; 3]>(
            BufferUsage::INDEX,
            0,
            Format::UINT3,
            12,
            2,
            address,
            error,
        )
    };
    assert_eq!(bind(0, Error::OUT_OF_MEMORY), Err(Error::OUT_OF_MEMORY));
    assert_eq!(bind(0x1002, Error::NONE), Err(Error::INVALID_ARGUMENT));
    assert_eq!(bind(0x1000, Error::NONE), Ok((2, vec![])));
    // Elements of this type do not tile the storage, or have no size.
    assert_eq!(
        g.set_new_buffer::<[u32; 5]>(BufferUsage::INDEX, 0, Format::UINT3, 12, 2),
        Err(Error::INVALID_ARGUMENT)
    );
    assert_eq!(
        g.set_new_buffer::<()>(BufferUsage::INDEX, 0, Format::UINT3, 12, 2),
        Err(Error::INVALID_ARGUMENT)
    );
}

#[test]
fn attachments_answer_for_each_slot() {
    let mut a = embree3::Attachments::new();
    let layout = BufferLayout { format: Format::UINT, stride: 4, count: 1 };
    let local = |address| AttachedBuffer::Local {
        address,
        size: BufferSize::new(4).unwrap(),
        layout,
    };
    assert!(a.get(BufferUsage::INDEX, 0).is_none());
    assert!(a.insert(BufferUsage::INDEX, 0, local(8)).is_none());
    assert!(a.insert(BufferUsage::INDEX, 1, local(16)).is_none());
    assert!(matches!(
        a.insert(BufferUsage::INDEX, 0, local(24)),
        Some(AttachedBuffer::Local { address: 8, .. })
    ));
    assert!(matches!(
        a.get(BufferUsage::INDEX, 1),
        Some(AttachedBuffer::Local { address: 16, .. })
    ));
    assert!(a.get(BufferUsage::FACE, 0).is_none());
    assert!(a.release().is_empty());
}

#[test]
fn settings_become_native_calls() {
    let mut g = geometry(GeometryKind::SUBDIVISION, 11);
    let rate = 4.0f32.to_bits();
    assert_eq!(
        g.set_tessellation_rate(rate),
        NativeCall::SetGeometryTessellationRate { geometry: 11, rate }
    );
    assert_eq!(
        g.set_topology_count(2),
        NativeCall::SetGeometryTopologyCount { geometry: 11, count: 2 }
    );
    assert_eq!(g.disable(), NativeCall::DisableGeometry { geometry: 11 });
    assert_eq!(g.enable(), NativeCall::EnableGeometry { geometry: 11 });
    assert_eq!(g.set_mask(3), NativeCall::SetGeometryMask { geometry: 11, mask: 3 });
    assert_eq!(g.set_user_primitive_count(5), None);
    let mut u = geometry(GeometryKind::USER, 12);
    assert_eq!(
        u.set_user_primitive_count(5),
        Some(NativeCall::SetGeometryUserPrimitiveCount { geometry: 12, count: 5 })
    );
    assert_eq!(
        u.set_primitive_count(6),
        NativeCall::SetGeometryUserPrimitiveCount { geometry: 12, count: 6 }
    );
}

#[test]
fn set_max_radius_scale_is_rejected_without_min_width_feature() {
    let mut geom = geometry(GeometryKind::TRIANGLE, 11);
    let scale = 4.0f32.to_bits();
    assert_eq!(
        geom.set_max_radius_scale(scale),
        NativeCall::SetGeometryMaxRadiusScale { geometry: 11, scale }
    );
    // The native library answers so where the feature is off.
    assert_eq!(
        geom.max_radius_scale_result(Error::INVALID_OPERATION),
        Err(Error::INVALID_OPERATION)
    );
    assert_eq!(geom.max_radius_scale_result(Error::NONE), Ok(()));
}
