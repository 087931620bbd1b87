use comic_core::crop::crop;
use comic_core::error::PipelineError;
use comic_core::raster::Pixel;
use comic_core::raster::PixelBuffer;

fn crop_picture(width: u32, height: u32) -> PixelBuffer {
    let mut b = PixelBuffer::new(width, height).unwrap();
    for y in 0..height {
        for x in 0..width {
            b.put_pixel(x, y, Pixel { r: x as u8, g: y as u8, b: (x * y) as u8, a: 200 });
        }
    }
    b
}

#[test]
fn crop_to_the_full_size_gives_the_picture_back() {
    let src = crop_picture(6, 5);
    let out = crop(&src, 0, 0, 6, 5).unwrap();
    assert_eq!(out.width(), 6);
    assert_eq!(out.height(), 5);
    assert_eq!(out.as_raw(), src.as_raw());
}

#[test]
fn crop_takes_the_rectangle() {
    let src = crop_picture(6, 5);
    let out = crop(&src, 2, 1, 3, 4).unwrap();
    assert_eq!(out.width(), 3);
    assert_eq!(out.height(), 4);
    for y in 0..4u32 {
        for x in 0..3u32 {
            assert_eq!(out.get_pixel(x, y), src.get_pixel(x + 2, y + 1));
        }
    }
}

#[test]
fn crop_of_a_single_pixel() {
    let src = crop_picture(6, 5);
    let out = crop(&src, 5, 4, 1, 1).unwrap();
    assert_eq!(out.as_raw(), &vec![5u8, 4, 20, 200]);
}

#[test]
fn crop_beyond_the_right_edge_is_refused() {
    let src = crop_picture(6, 5);
    assert_eq!(
        crop(&src, 4, 0, 3, 1).err(),
        Some(PipelineError::Bounds {
            x: 4,
            y: 0,
            width: 3,
            height: 1,
            image_width: 6,
            image_height: 5
        })
    );
}

#[test]
fn crop_beyond_the_bottom_edge_is_refused() {
    let src = crop_picture(6, 5);
    assert_eq!(
        crop(&src, 0, 5, 1, 1).err(),
        Some(PipelineError::Bounds {
            x: 0,
            y: 5,
            width: 1,
            height: 1,
            image_width: 6,
            image_height: 5
        })
    );
}

#[test]
fn crop_whose_sums_overflow_is_refused() {
    let src = crop_picture(6, 5);
    // In 32 bits x + width would wrap round to 1.
    assert_eq!(
        crop(&src, u32::MAX, 0, 2, 1).err(),
        Some(PipelineError::Bounds {
            x: u32::MAX,
            y: 0,
            width: 2,
            height: 1,
            image_width: 6,
            image_height: 5
        })
    );
    assert!(matches!(crop(&src, 0, 3, 1, u32::MAX), Err(PipelineError::Bounds { .. })));
    assert!(matches!(crop(&src, 0, 0, 7, 5), Err(PipelineError::Bounds { .. })));
    assert!(matches!(crop(&src, 0, 0, 6, 6), Err(PipelineError::Bounds { .. })));
}

#[test]
fn crop_of_an_empty_rectangle_inside_is_empty() {
    let src = crop_picture(6, 5);
    let out = crop(&src, 6, 5, 0, 0).unwrap();
    assert_eq!(out.width(), 0);
    assert_eq!(out.height(), 0);
    assert!(out.as_raw().is_empty());
    let row = crop(&src, 1, 2, 3, 0).unwrap();
    assert_eq!(row.width(), 3);
    assert_eq!(row.height(), 0);
}
