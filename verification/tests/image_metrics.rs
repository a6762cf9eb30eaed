//! Readback layout of rendered images.

use gsplat_render_wgpu::offscreen::{unpad_rows, ReadbackLayoutError, RgbaReadbackLayout};

#[test]
fn readback_rows_are_padded_to_the_copy_alignment_and_packed_again() {
    let layout = RgbaReadbackLayout::for_size(3, 2, 256).unwrap();
    assert_eq!(layout.unpadded_bytes_per_row, 12);
    assert_eq!(layout.padded_bytes_per_row, 256);
    assert_eq!(layout.buffer_size, 512);
    let mapped: Vec<u8> = (0..512_u32).map(|i| (i % 251) as u8).collect();
    let packed = unpad_rows(&mapped, layout);
    assert_eq!(packed.len(), 24);
    assert_eq!(&packed[..12], &mapped[..12]);
    assert_eq!(&packed[12..], &mapped[256..268]);
    assert_eq!(
        RgbaReadbackLayout::for_size(0, 5, 256),
        Err(ReadbackLayoutError::EmptyTarget)
    );
    assert_eq!(
        RgbaReadbackLayout::for_size(64, 1, 256).unwrap().padded_bytes_per_row,
        256
    );
}
