//! Aligned storage.

use embree3::aligned::first_aligned;
use embree3::{AlignedArray, AlignedVector, ValidMaskN};

#[test]
fn test_aligned_vector_alloc() {
    let v = AlignedVector::<f32>::new_init(24, 16, 1.0).unwrap();
    for x in v.iter() {
        assert_eq!(*x, 1.0);
    }
}

#[test]
fn miri_aligned_vector_new_is_initialised() {
    let v = AlignedVector::<u32>::zeroed(8, 16).unwrap();
    let mut acc = 0u32;
    for x in v.iter() {
        acc = acc.wrapping_add(*x);
    }
    assert_eq!(acc, 0);
    assert_eq!(v.len(), 8);
}

#[test]
fn valid_mask_is_16_byte_aligned() {
    assert_eq!(std::mem::align_of::<ValidMaskN<4>>(), 16);
    assert_eq!(std::mem::align_of::<ValidMaskN<8>>(), 16);
    assert_eq!(std::mem::align_of::<ValidMaskN<16>>(), 16);
    let m = ValidMaskN::<8>::all_active();
    assert_eq!(m.lanes().as_ptr() as usize % 16, 0, "mask must be 16-aligned");
}

#[test]
fn the_storage_of_an_aligned_vector_is_aligned() {
    for align in [4usize, 16, 64, 256] {
        let mut v = AlignedVector::<u32>::new_init(5, align, 9).unwrap();
        assert_eq!(v.as_ptr() as usize % align, 0);
        assert_eq!(v.alignment(), align);
        v.set(3, 1);
        assert_eq!(v.as_slice(), &[9, 9, 9, 1, 9]);
    }
}

#[test]
fn odd_multiples_of_the_own_alignment_are_always_aligned() {
    for align in [1usize, 4, 16, 64, 1024] {
        for len in [0usize, 1, 7, 100] {
            let v = AlignedVector::<[u32; 3]>::new_init(len, align, [1, 2, 3]).unwrap();
            assert_eq!(v.as_ptr() as usize % align, 0);
            assert_eq!(v.as_slice(), &vec![[1, 2, 3]; len][..]);
            assert_eq!(v.alignment(), align.max(4));
        }
    }
    let w = AlignedVector::<u64>::new_init(4, 1, 0).unwrap();
    assert_eq!(w.alignment(), std::mem::align_of::<u64>());
}

#[test]
fn large_elements_are_aligned_or_refused() {
    // Elements of 64 bytes lie at multiples of 64 only if the first one does.
    for len in 0..40usize {
        let storage = vec![[3u32; 16]; len];
        let address = storage.as_ptr() as usize;
        let v = AlignedVector::start_at(storage, address, len, 64);
        assert_eq!(v.is_some(), address % 64 == 0);
        if let Some(v) = AlignedVector::<[u32; 16]>::new_init(len, 64, [3; 16]) {
            assert_eq!(v.as_ptr() as usize % 64, 0);
            assert_eq!(v.as_slice(), &vec![[3; 16]; len][..]);
        }
    }
    // Their own alignment is always kept.
    let v = AlignedVector::<[u32; 16]>::new_init(3, 4, [3; 16]).unwrap();
    assert_eq!((v.alignment(), v.len()), (4, 3));
    // No room is left for the elements that may have to be skipped.
    assert!(AlignedVector::<[u8; 4]>::zeroed(0, 1 << 62).is_none());
}

#[test]
fn a_vector_starts_where_it_is_aligned() {
    let v = AlignedVector::start_at(vec![0u32, 1, 2, 3, 4], 0x1008, 3, 16).unwrap();
    assert_eq!(v.as_slice(), &[2, 3, 4]);
    assert_eq!(v.alignment(), 16);
    assert!(AlignedVector::start_at(vec![0u32, 1, 2, 3, 4], 0x1004, 3, 16).is_none());
    assert!(AlignedVector::start_at(vec![0u32; 5], 0x1000, 6, 16).is_none());
    // Elements of 32 bytes step over the multiples of 64.
    assert!(AlignedVector::start_at(vec![[0u32; 8]; 9], 0x1010, 1, 64).is_none());
    let even = AlignedVector::start_at(vec![[0u32; 8]; 9], 0x1020, 8, 64).unwrap();
    assert_eq!(even.len(), 8);
}

#[test]
fn the_first_aligned_element_is_found() {
    assert_eq!(first_aligned(0x1000, 4, 4, 16), Some(0));
    assert_eq!(first_aligned(0x1004, 4, 4, 16), Some(3));
    assert_eq!(first_aligned(0x1004, 12, 4, 16), Some(1));
    assert_eq!(first_aligned(0x1004, 64, 4, 64), None);
    assert_eq!(first_aligned(0x1040, 64, 4, 64), Some(0));
    assert_eq!(first_aligned(usize::MAX - 3, 4, 4, 16), Some(1));
    assert_eq!(first_aligned(8, 0, 1, 16), None);
}

#[test]
fn layouts_and_room_are_counted() {
    assert_eq!(AlignedVector::<u32>::layout(24, 16), Some((96, 16)));
    assert_eq!(AlignedVector::<u32>::layout(24, 1), Some((96, 4)));
    assert_eq!(AlignedVector::<u32>::layout(24, 24), None);
    assert_eq!(AlignedVector::<u32>::layout(usize::MAX, 16), None);
    let most = isize::MAX as usize - 15;
    assert_eq!(AlignedVector::<u8>::layout(most, 16), Some((most, 16)));
    assert_eq!(AlignedVector::<u8>::layout(most + 1, 16), None);
    assert_eq!(AlignedVector::<u32>::room_for(24, 16), Some(27));
    assert_eq!(AlignedVector::<u32>::room_for(24, 2), Some(24));
    assert_eq!(AlignedVector::<u32>::room_for(usize::MAX / 8, 16), None);
    assert_eq!(AlignedVector::<()>::room_for(usize::MAX, 16), None);
}

#[test]
fn an_aligned_array_keeps_its_elements() {
    assert_eq!(std::mem::align_of::<AlignedArray<u32, 3>>(), 16);
    let mut a = AlignedArray::new([1u32, 2, 3]);
    a.data_mut()[1] = 20;
    assert_eq!(*a, [1, 20, 3]);
}
