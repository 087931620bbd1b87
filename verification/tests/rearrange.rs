use comic_core::error::PipelineError;
use comic_core::raster::Pixel;
use comic_core::raster::PixelBuffer;
use comic_core::rearrange::rearrange;

/// A picture in which every pixel of row `y` has the colour of that row.
fn rearrange_rows_picture(width: u32, height: u32) -> PixelBuffer {
    let mut b = PixelBuffer::new(width, height).unwrap();
    for y in 0..height {
        for x in 0..width {
            b.put_pixel(x, y, rearrange_row_colour(y));
        }
    }
    b
}

fn rearrange_row_colour(y: u32) -> Pixel {
    Pixel { r: (10 + y) as u8, g: (100 + 3 * y) as u8, b: (200 - y) as u8, a: 255 }
}

/// The source row of every destination row, read off the colours.
fn rearrange_row_order(out: &PixelBuffer, height: u32) -> Vec<u32> {
    let mut order = Vec::new();
    for y in 0..out.height() {
        let first = out.get_pixel(0, y);
        for x in 0..out.width() {
            assert_eq!(out.get_pixel(x, y), first);
        }
        let from = (0..height).find(|s| rearrange_row_colour(*s) == first).unwrap();
        order.push(from);
    }
    order
}

#[test]
fn rearrange_with_one_strip_is_the_identity() {
    let src = rearrange_rows_picture(5, 7);
    let out = rearrange(&src, 1).unwrap();
    assert_eq!(out.width(), 5);
    assert_eq!(out.height(), 7);
    assert_eq!(out.as_raw(), src.as_raw());
}

#[test]
fn rearrange_two_strips_swaps_the_halves() {
    // 4 wide, 8 high, two strips of four rows.
    let src = rearrange_rows_picture(4, 8);
    let out = rearrange(&src, 2).unwrap();
    assert_eq!(out.width(), 4);
    assert_eq!(out.height(), 8);
    assert_eq!(rearrange_row_order(&out, 8), vec![4, 5, 6, 7, 0, 1, 2, 3]);
}

#[test]
fn rearrange_first_strip_takes_the_remainder() {
    // 3 wide, 10 high, three strips: three rows each and one row over.
    let src = rearrange_rows_picture(3, 10);
    let out = rearrange(&src, 3).unwrap();
    assert_eq!(out.width(), 3);
    assert_eq!(out.height(), 10);
    assert_eq!(rearrange_row_order(&out, 10), vec![6, 7, 8, 9, 3, 4, 5, 0, 1, 2]);
}

#[test]
fn rearrange_keeps_the_columns_of_a_row() {
    let mut src = PixelBuffer::new(3, 4).unwrap();
    for y in 0..4u32 {
        for x in 0..3u32 {
            src.put_pixel(x, y, Pixel { r: x as u8, g: y as u8, b: 0, a: 255 });
        }
    }
    let out = rearrange(&src, 2).unwrap();
    for y in 0..4u32 {
        for x in 0..3u32 {
            let from = (y + 2) % 4;
            assert_eq!(out.get_pixel(x, y), Pixel { r: x as u8, g: from as u8, b: 0, a: 255 });
        }
    }
}

#[test]
fn rearrange_uses_every_row_once() {
    for height in 1..=12u32 {
        for rows in 1..=height {
            let src = rearrange_rows_picture(2, height);
            let out = rearrange(&src, rows).unwrap();
            let mut order = rearrange_row_order(&out, height);
            order.sort();
            let all: Vec<u32> = (0..height).collect();
            assert_eq!(order, all, "height {} rows {}", height, rows);
        }
    }
}

#[test]
fn rearrange_with_as_many_strips_as_rows_reverses_the_rows() {
    let src = rearrange_rows_picture(2, 5);
    let out = rearrange(&src, 5).unwrap();
    assert_eq!(rearrange_row_order(&out, 5), vec![4, 3, 2, 1, 0]);
}

#[test]
fn rearrange_twice_with_even_strips_gives_the_picture_back() {
    let src = rearrange_rows_picture(3, 12);
    let once = rearrange(&src, 4).unwrap();
    let twice = rearrange(&once, 4).unwrap();
    assert_eq!(twice.as_raw(), src.as_raw());
}

#[test]
fn rearrange_with_more_strips_than_rows_is_refused() {
    let src = rearrange_rows_picture(3, 4);
    assert_eq!(
        rearrange(&src, 5).err(),
        Some(PipelineError::DegenerateRearrange { rows: 5, height: 4 })
    );
    assert_eq!(
        rearrange(&src, u32::MAX).err(),
        Some(PipelineError::DegenerateRearrange { rows: u32::MAX, height: 4 })
    );
}

#[test]
fn rearrange_of_a_picture_without_rows_is_refused() {
    let src = PixelBuffer::new(3, 0).unwrap();
    assert_eq!(
        rearrange(&src, 1).err(),
        Some(PipelineError::DegenerateRearrange { rows: 1, height: 0 })
    );
}

#[test]
fn rearrange_of_a_picture_without_columns_keeps_its_size() {
    let src = PixelBuffer::new(0, 6).unwrap();
    let out = rearrange(&src, 3).unwrap();
    assert_eq!(out.width(), 0);
    assert_eq!(out.height(), 6);
    assert!(out.as_raw().is_empty());
}
