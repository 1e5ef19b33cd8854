use bucatini::ndi::VideoFrame;

#[test]
fn frame_dimensions_are_reinterpreted_unsigned() {
    let f = VideoFrame { xres: 1920, yres: 1080, line_stride_or_size: 7680, has_data: true };
    assert_eq!((f.width(), f.height(), f.stride()), (1920, 1080, 7680));
    assert_eq!(f.data_len(), 7680 * 1080);
    let g = VideoFrame { xres: -1, yres: 2, line_stride_or_size: 8, has_data: true };
    assert_eq!(g.width(), u32::MAX);
    assert_eq!(g.data_len(), 16);
}

#[test]
fn frame_without_data_has_no_bytes() {
    let f = VideoFrame { xres: 2, yres: 2, line_stride_or_size: 8, has_data: false };
    assert_eq!(f.data_len(), 0);
}
