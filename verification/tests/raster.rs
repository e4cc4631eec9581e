use print_agent::geometry::Size;
use print_agent::raster::{
    raster_size, ChannelOrder, PixelLayout, RasterBuffer, RenderError, RowOrder, TARGET_HEIGHT,
    TARGET_WIDTH,
};

fn layout(channels: ChannelOrder, rows: RowOrder, row_alignment: u32) -> PixelLayout {
    PixelLayout { channels, rows, row_alignment }
}

/// A picture whose every byte tells where it stands.
fn sample(width: u32, height: u32) -> Vec<u8> {
    let mut data = Vec::new();
    for y in 0..height {
        for x in 0..width {
            for c in 0..3u32 {
                data.push((y * 50 + x * 5 + c + 1) as u8);
            }
        }
    }
    data
}

#[test]
fn target_box_is_a_label_at_300_dpi() {
    assert_eq!(TARGET_WIDTH, 4 * 300);
    assert_eq!(TARGET_HEIGHT, 6 * 300);
}

#[test]
fn a4_page_is_fitted_by_width() {
    let page = Size { width: 595_000, height: 842_000 };
    let size = raster_size(page, Size { width: 1200, height: 1800 });
    assert_eq!(size, Ok(Size { width: 1200, height: 1698 }));
}

#[test]
fn label_page_fills_the_target() {
    let page = Size { width: 288_000, height: 432_000 };
    let size = raster_size(page, Size { width: TARGET_WIDTH, height: TARGET_HEIGHT });
    assert_eq!(size, Ok(Size { width: 1200, height: 1800 }));
}

#[test]
fn landscape_page_is_fitted_by_width() {
    let page = Size { width: 842_000, height: 595_000 };
    let size = raster_size(page, Size { width: 1200, height: 1800 });
    assert_eq!(size, Ok(Size { width: 1200, height: 847 }));
}

#[test]
fn tall_page_is_fitted_by_height() {
    let page = Size { width: 100, height: 1000 };
    let size = raster_size(page, Size { width: 1200, height: 1800 });
    assert_eq!(size, Ok(Size { width: 180, height: 1800 }));
}

#[test]
fn page_without_area_is_not_rendered() {
    let target = Size { width: 1200, height: 1800 };
    assert_eq!(raster_size(Size { width: 0, height: 842 }, target), Err(RenderError::EmptyPage));
    assert_eq!(raster_size(Size { width: 595, height: 0 }, target), Err(RenderError::EmptyPage));
}

#[test]
fn page_too_thin_for_the_target_is_not_rendered() {
    let target = Size { width: 1200, height: 1800 };
    assert_eq!(raster_size(Size { width: 100_000, height: 1 }, target), Err(RenderError::EmptyPage));
    assert_eq!(raster_size(Size { width: 1, height: 100_000 }, target), Err(RenderError::EmptyPage));
    assert_eq!(raster_size(Size { width: 1200, height: 1 }, target), Ok(Size { width: 1200, height: 1 }));
}

#[test]
fn nothing_is_rendered_into_an_empty_target() {
    let page = Size { width: 595, height: 842 };
    assert_eq!(raster_size(page, Size { width: 0, height: 0 }), Err(RenderError::EmptyPage));
}

#[test]
fn buffer_keeps_what_it_is_given() {
    let buffer = RasterBuffer::new(2, 3, sample(2, 3)).unwrap();
    assert_eq!(buffer.width(), 2);
    assert_eq!(buffer.height(), 3);
    assert_eq!(buffer.size(), Size { width: 2, height: 3 });
    assert_eq!(buffer.data(), &sample(2, 3));
}

#[test]
fn buffer_of_wrong_length_is_refused() {
    assert!(matches!(RasterBuffer::new(2, 3, vec![0; 17]), Err(RenderError::BadBuffer)));
    assert!(matches!(RasterBuffer::new(2, 3, vec![0; 19]), Err(RenderError::BadBuffer)));
    assert!(matches!(RasterBuffer::new(2, 3, Vec::new()), Err(RenderError::BadBuffer)));
}

#[test]
fn buffer_without_area_is_refused() {
    assert!(matches!(RasterBuffer::new(0, 3, Vec::new()), Err(RenderError::EmptyPage)));
    assert!(matches!(RasterBuffer::new(3, 0, Vec::new()), Err(RenderError::EmptyPage)));
}

#[test]
fn buffer_of_absurd_size_is_refused() {
    assert!(matches!(RasterBuffer::new(u32::MAX, u32::MAX, vec![0; 3]), Err(RenderError::BadBuffer)));
}

#[test]
fn same_layout_without_padding_is_the_data() {
    let buffer = RasterBuffer::new(3, 2, sample(3, 2)).unwrap();
    let bytes = buffer.into_device(layout(ChannelOrder::Rgb, RowOrder::TopDown, 1)).unwrap();
    assert_eq!(bytes, sample(3, 2));
}

#[test]
fn alignment_zero_means_no_padding() {
    let buffer = RasterBuffer::new(3, 2, sample(3, 2)).unwrap();
    let bytes = buffer.into_device(layout(ChannelOrder::Rgb, RowOrder::TopDown, 0)).unwrap();
    assert_eq!(bytes, sample(3, 2));
}

#[test]
fn device_bitmap_is_bottom_up_bgr_padded_to_four() {
    // Two pixels by two: top row red and green, bottom row blue and white.
    let data = vec![255, 0, 0, 0, 255, 0, 0, 0, 255, 255, 255, 255];
    let buffer = RasterBuffer::new(2, 2, data).unwrap();
    let bytes = buffer.into_device(layout(ChannelOrder::Bgr, RowOrder::BottomUp, 4)).unwrap();
    let expected = vec![
        255, 0, 0, 255, 255, 255, 0, 0, // bottom row: blue, white, padding
        0, 0, 255, 0, 255, 0, 0, 0, // top row: red, green, padding
    ];
    assert_eq!(bytes, expected);
}

#[test]
fn channels_are_swapped_without_touching_the_rows() {
    let buffer = RasterBuffer::new(1, 2, vec![1, 2, 3, 4, 5, 6]).unwrap();
    let bytes = buffer.into_device(layout(ChannelOrder::Bgr, RowOrder::TopDown, 1)).unwrap();
    assert_eq!(bytes, vec![3, 2, 1, 6, 5, 4]);
}

#[test]
fn rows_are_reversed_without_touching_the_channels() {
    let buffer = RasterBuffer::new(1, 3, vec![1, 2, 3, 4, 5, 6, 7, 8, 9]).unwrap();
    let bytes = buffer.into_device(layout(ChannelOrder::Rgb, RowOrder::BottomUp, 1)).unwrap();
    assert_eq!(bytes, vec![7, 8, 9, 4, 5, 6, 1, 2, 3]);
}

#[test]
fn rows_are_padded_with_zeros() {
    let buffer = RasterBuffer::new(1, 2, vec![1, 2, 3, 4, 5, 6]).unwrap();
    let bytes = buffer.into_device(layout(ChannelOrder::Rgb, RowOrder::TopDown, 4)).unwrap();
    assert_eq!(bytes, vec![1, 2, 3, 0, 4, 5, 6, 0]);
    let buffer = RasterBuffer::new(1, 2, vec![1, 2, 3, 4, 5, 6]).unwrap();
    let bytes = buffer.into_device(layout(ChannelOrder::Rgb, RowOrder::TopDown, 8)).unwrap();
    assert_eq!(bytes, vec![1, 2, 3, 0, 0, 0, 0, 0, 4, 5, 6, 0, 0, 0, 0, 0]);
}

#[test]
fn rows_that_are_aligned_already_get_no_padding() {
    let buffer = RasterBuffer::new(4, 1, sample(4, 1)).unwrap();
    let bytes = buffer.into_device(layout(ChannelOrder::Rgb, RowOrder::TopDown, 4)).unwrap();
    assert_eq!(bytes, sample(4, 1));
}

#[test]
fn native_picture_is_taken_over() {
    // What a backend hands out: bottom up, blue first, rows padded to four.
    let native = vec![
        255, 0, 0, 255, 255, 255, 9, 9, // bottom row: blue, white, padding
        0, 0, 255, 0, 255, 0, 9, 9, // top row: red, green, padding
    ];
    let buffer =
        RasterBuffer::from_native(2, 2, &native, layout(ChannelOrder::Bgr, RowOrder::BottomUp, 4))
            .unwrap();
    assert_eq!(buffer.size(), Size { width: 2, height: 2 });
    assert_eq!(buffer.data(), &vec![255, 0, 0, 0, 255, 0, 0, 0, 255, 255, 255, 255]);
}

#[test]
fn native_picture_of_wrong_length_is_refused() {
    let wanted = layout(ChannelOrder::Rgb, RowOrder::TopDown, 4);
    assert!(matches!(RasterBuffer::from_native(2, 2, &[0; 12], wanted), Err(RenderError::BadBuffer)));
    assert!(matches!(RasterBuffer::from_native(2, 2, &[0; 17], wanted), Err(RenderError::BadBuffer)));
    assert!(RasterBuffer::from_native(2, 2, &[0; 16], wanted).is_ok());
}

#[test]
fn native_picture_without_area_is_refused() {
    let wanted = layout(ChannelOrder::Rgb, RowOrder::TopDown, 1);
    assert!(matches!(RasterBuffer::from_native(0, 2, &[], wanted), Err(RenderError::EmptyPage)));
    assert!(matches!(RasterBuffer::from_native(2, 0, &[], wanted), Err(RenderError::EmptyPage)));
}

#[test]
fn laying_out_and_reading_back_gives_the_picture() {
    let orders = [ChannelOrder::Rgb, ChannelOrder::Bgr];
    let rows = [RowOrder::TopDown, RowOrder::BottomUp];
    let alignments = [0u32, 1, 2, 4, 5, 16];
    let sizes = [(1u32, 1u32), (1, 4), (4, 1), (3, 2), (5, 7)];
    for channels in orders {
        for row_order in rows {
            for alignment in alignments {
                for (width, height) in sizes {
                    let wanted = layout(channels, row_order, alignment);
                    let buffer = RasterBuffer::new(width, height, sample(width, height)).unwrap();
                    let device = buffer.into_device(wanted).unwrap();
                    let unit = if alignment == 0 { 1 } else { alignment };
                    let stride = (3 * width + unit - 1) / unit * unit;
                    assert_eq!(device.len(), (stride * height) as usize);
                    let back = RasterBuffer::from_native(width, height, &device, wanted).unwrap();
                    assert_eq!(back.data(), &sample(width, height));
                }
            }
        }
    }
}
