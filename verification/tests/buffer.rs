//! Element formats, layouts, native buffers and their views.

use embree3::buffer::{range_bounds_to_offset_and_size, required_layout_bytes};
use embree3::sys::RTCGrid;
use embree3::{
    Bound, Buffer, BufferData, BufferSize, BufferView, BufferViewMut, ByteRange, Device, Error,
    Format, NativeCall,
};

const DEVICE: Device = Device { handle: 7 };

fn size(bytes: usize) -> BufferSize {
    BufferSize::new(bytes).unwrap()
}

fn range(start: Bound, end: Bound) -> ByteRange {
    ByteRange { start, end }
}

#[test]
fn format_byte_size() {
    assert_eq!(Format::FLOAT3.byte_size(), Some(12));
    assert_eq!(Format::UINT3.byte_size(), Some(12));
    assert_eq!(Format::FLOAT.byte_size(), Some(4));
    assert_eq!(Format::FLOAT4X4_COLUMN_MAJOR.byte_size(), Some(64));
    assert_eq!(Format::FLOAT2X3_ROW_MAJOR.byte_size(), Some(24));
    assert_eq!(Format::UCHAR4.byte_size(), Some(4));
    assert_eq!(Format::ULLONG2.byte_size(), Some(16));
    assert_eq!(Format::UNDEFINED.byte_size(), None);
    assert_eq!(Format::GRID.byte_size(), Some(std::mem::size_of::<RTCGrid>()));
}

#[test]
fn required_layout_bytes_rules() {
    // FLOAT3, 8 elements, stride 12.
    assert_eq!(required_layout_bytes(Format::FLOAT3, 12, 8, false), Some(96));
    assert_eq!(required_layout_bytes(Format::FLOAT3, 12, 8, true), Some(100));
    assert_eq!(required_layout_bytes(Format::FLOAT4, 16, 8, true), Some(128));
    // Rejections.
    assert_eq!(required_layout_bytes(Format::FLOAT3, 12, 0, false), None);
    assert_eq!(required_layout_bytes(Format::UNDEFINED, 12, 8, false), None);
    assert_eq!(required_layout_bytes(Format::FLOAT3, 8, 8, false), None);
    assert_eq!(required_layout_bytes(Format::FLOAT3, 13, 8, false), None);
    assert_eq!(required_layout_bytes(Format::FLOAT3, usize::MAX, 8, false), None);
}

#[test]
fn every_scalar_and_vector_format_has_its_size() {
    let bytes = [Format::UCHAR, Format::UCHAR2, Format::UCHAR3, Format::UCHAR4];
    let shorts = [Format::SHORT, Format::SHORT2, Format::SHORT3, Format::SHORT4];
    let ints = [Format::INT, Format::INT2, Format::INT3, Format::INT4];
    let longs = [Format::LLONG, Format::LLONG2, Format::LLONG3, Format::LLONG4];
    for i in 0..4 {
        assert_eq!(bytes[i].byte_size(), Some(i + 1));
        assert_eq!(shorts[i].byte_size(), Some(2 * (i + 1)));
        assert_eq!(ints[i].byte_size(), Some(4 * (i + 1)));
        assert_eq!(longs[i].byte_size(), Some(8 * (i + 1)));
    }
    assert_eq!(Format::FLOAT16.byte_size(), Some(64));
    assert_eq!(Format::FLOAT3X4_ROW_MAJOR.byte_size(), Some(48));
}

#[test]
fn a_layout_holds_every_element() {
    let one = required_layout_bytes(Format::FLOAT3, 20, 1, true).unwrap();
    let four = required_layout_bytes(Format::FLOAT3, 20, 4, true).unwrap();
    assert_eq!(one, 16);
    assert_eq!(four, 3 * 20 + 16);
    // The tail of one element is all that a layout of one takes.
    assert_eq!(required_layout_bytes(Format::UCHAR3, 4, 2, false), Some(4 + 3));
    // The last product that fits.
    assert_eq!(required_layout_bytes(Format::FLOAT, 4, 1, false), Some(4));
    assert_eq!(required_layout_bytes(Format::FLOAT, usize::MAX - 3, 2, false), None);
}

#[test]
fn a_buffer_is_padded_to_sixteen_bytes() {
    assert_eq!(Buffer::request(&DEVICE, size(36)), NativeCall::NewBuffer { device: 7, size: 48 });
    assert_eq!(Buffer::request(&DEVICE, size(48)), NativeCall::NewBuffer { device: 7, size: 48 });
    let b = Buffer::new(&DEVICE, size(1), 99, Error::NONE).unwrap();
    assert_eq!((b.handle, b.size.get()), (99, 16));
    assert_eq!(
        Buffer::new(&DEVICE, size(1), 0, Error::OUT_OF_MEMORY),
        Err(Error::OUT_OF_MEMORY)
    );
    assert_eq!(BufferSize::new(0), None);
}

#[test]
fn a_handle_is_retained_and_released() {
    let b = Buffer::new(&DEVICE, size(16), 99, Error::NONE).unwrap();
    let (copy, call) = b.retain();
    assert_eq!(copy, b);
    assert_eq!(call, NativeCall::RetainBuffer { buffer: 99 });
    assert_eq!(copy.release(), NativeCall::ReleaseBuffer { buffer: 99 });
    assert_eq!(b.map(), NativeCall::GetBufferData { buffer: 99 });
}

#[test]
fn ranges_become_offset_and_size() {
    let f = |s: Bound, e: Bound| range_bounds_to_offset_and_size(range(s, e));
    assert_eq!(f(Bound::Included(4), Bound::Excluded(12)), (4, Some(8)));
    assert_eq!(f(Bound::Included(4), Bound::Included(11)), (4, Some(8)));
    assert_eq!(f(Bound::Excluded(3), Bound::Excluded(12)), (4, Some(8)));
    assert_eq!(f(Bound::Unbounded, Bound::Excluded(12)), (0, Some(12)));
    assert_eq!(f(Bound::Included(4), Bound::Unbounded), (4, None));
    assert_eq!(f(Bound::Unbounded, Bound::Unbounded), (0, None));
}

#[test]
fn mapped_ranges_select_whole_elements() {
    let mut b = Buffer::new(&DEVICE, size(32), 99, Error::NONE).unwrap();
    let data: [u32; 8] = [0, 1, 2, 3, 4, 5, 6, 7];
    let all = b.mapped_range(&data, range(Bound::Unbounded, Bound::Unbounded));
    assert_eq!(all.as_slice(), &data);
    let tail = b.mapped_range(&data, range(Bound::Included(20), Bound::Unbounded));
    assert_eq!(tail.as_slice(), &[5, 6, 7]);

    let mut live = data;
    {
        let bounds = range(Bound::Included(8), Bound::Excluded(16));
        let mut view = b.mapped_range_mut(&mut live, bounds);
        assert_eq!(view.as_slice(), &[2, 3]);
        view.as_mut_slice().copy_from_slice(&[20, 30]);
    }
    assert_eq!(live, [0, 1, 20, 30, 4, 5, 6, 7]);
}

#[test]
fn a_view_reports_a_failed_mapping() {
    let b = Buffer::new(&DEVICE, size(16), 99, Error::NONE).unwrap();
    let failed = BufferView::<u32>::new(&b, None, 0, 16, Error::OUT_OF_MEMORY);
    assert_eq!(failed.err(), Some(Error::OUT_OF_MEMORY));
    let mut words = [1u32, 2];
    assert_eq!(BufferView::over(&words).as_slice(), &[1, 2]);
    BufferViewMut::over(&mut words).as_mut_slice()[1] = 5;
    assert_eq!(words, [1, 5]);
}

#[test]
fn zero_is_zero_for_every_plain_type() {
    assert_eq!(u8::zero(), 0);
    assert_eq!(i64::zero(), 0);
    assert_eq!(<[u16; 3]>::zero(), [0, 0, 0]);
    assert_eq!(<[[i32; 2]; 2]>::zero(), [[0, 0], [0, 0]]);
}
