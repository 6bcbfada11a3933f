use mediafx::layout::{FrameError, RenderSize, BYTES_PER_PIXEL};

#[test]
fn layout_sizes() {
    let size = RenderSize::new(4, 1, 2);
    assert_eq!(size.width(), 4);
    assert_eq!(size.height(), 1);
    assert_eq!(size.count(), 2);
    assert_eq!(size.frame_bytecount(), 16);
    assert_eq!(size.memory_size(), 48);
    assert_eq!(BYTES_PER_PIXEL, 4);
}

#[test]
fn layout_large_frame() {
    let size = RenderSize::new(1024, 768, 2);
    assert_eq!(size.frame_bytecount(), 1024 * 768 * 4);
    assert_eq!(size.memory_size(), 1024 * 768 * 4 * 3);
}

#[test]
fn layout_without_sources() {
    let size = RenderSize::new(3, 5, 0);
    assert_eq!(size.memory_size(), 60);
    assert_eq!(size.frame_range(0).unwrap(), 0..60);
    assert_eq!(size.frame_range(1), Err(FrameError::OutOfRange));
}

#[test]
fn try_new_rejects_zero_dimensions() {
    assert!(RenderSize::try_new(0, 4, 1).is_none());
    assert!(RenderSize::try_new(4, 0, 1).is_none());
    assert!(RenderSize::try_new(4, 4, 1).is_some());
}

#[test]
fn try_new_rejects_unaddressable_arena() {
    assert!(RenderSize::try_new(u32::MAX, u32::MAX, usize::MAX).is_none());
    assert!(RenderSize::try_new(1, 1, usize::MAX).is_none());
    assert!(RenderSize::try_new(1, 1, usize::MAX / 4 - 1).is_some());
}

#[test]
fn frame_ranges_tile_the_arena() {
    let size = RenderSize::new(4, 1, 2);
    assert_eq!(size.frame_range(0).unwrap(), 0..16);
    assert_eq!(size.frame_range(1).unwrap(), 16..32);
    assert_eq!(size.frame_range(2).unwrap(), 32..48);
    assert_eq!(size.frame_range(3), Err(FrameError::OutOfRange));
}

#[test]
fn output_frame_is_disjoint_from_sources() {
    for (w, h, count) in [(1u32, 1u32, 0usize), (4, 1, 2), (7, 3, 5), (640, 480, 3)] {
        let size = RenderSize::new(w, h, count);
        let frame = size.frame_bytecount();
        assert_eq!(size.memory_size(), frame * (count + 1));
        let output = size.frame_range(count).unwrap();
        assert_eq!(output.end, size.memory_size());
        for i in 0..count {
            let source = size.frame_range(i).unwrap();
            assert!(source.end <= output.start);
        }
    }
}

#[test]
fn frame_views() {
    let size = RenderSize::new(1, 1, 2);
    let arena: Vec<u8> = (0u8..12).collect();
    assert_eq!(size.frame(&arena, 0).unwrap(), &[0, 1, 2, 3]);
    assert_eq!(size.frame(&arena, 1).unwrap(), &[4, 5, 6, 7]);
    assert_eq!(size.frame(&arena, 2), Err(FrameError::OutOfRange));
    assert_eq!(size.rendered_frame(&arena), &[8, 9, 10, 11]);
}

#[test]
fn rendered_frame_mut_writes_output_only() {
    let size = RenderSize::new(1, 1, 1);
    let mut arena = vec![0u8; 8];
    size.rendered_frame_mut(&mut arena).fill(9);
    assert_eq!(arena, vec![0, 0, 0, 0, 9, 9, 9, 9]);
}

#[test]
fn write_frame_copies_one_frame() {
    let size = RenderSize::new(1, 1, 2);
    let mut arena = vec![0u8; 12];
    assert_eq!(size.write_frame(&mut arena, 1, &[5, 6, 7, 8]), Ok(()));
    assert_eq!(arena, vec![0, 0, 0, 0, 5, 6, 7, 8, 0, 0, 0, 0]);
}

#[test]
fn write_frame_errors() {
    let size = RenderSize::new(1, 1, 2);
    let mut arena = vec![0u8; 12];
    assert_eq!(size.write_frame(&mut arena, 2, &[1, 1, 1, 1]), Err(FrameError::OutOfRange));
    assert_eq!(size.write_frame(&mut arena, 0, &[1, 1, 1]), Err(FrameError::WrongLength));
    assert_eq!(arena, vec![0u8; 12]);
}
