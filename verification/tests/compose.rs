use comic_core::compose::compose;
use comic_core::error::PipelineError;
use comic_core::raster::Pixel;
use comic_core::raster::PixelBuffer;

fn compose_solid(width: u32, height: u32, v: u8) -> PixelBuffer {
    let mut b = PixelBuffer::new(width, height).unwrap();
    for y in 0..height {
        for x in 0..width {
            b.put_pixel(x, y, Pixel { r: v, g: x as u8, b: y as u8, a: 255 });
        }
    }
    b
}

const COMPOSE_CLEAR: Pixel = Pixel { r: 0, g: 0, b: 0, a: 0 };

#[test]
fn compose_of_nothing_is_refused() {
    assert_eq!(compose(&Vec::new()).err(), Some(PipelineError::EmptyInput));
}

#[test]
fn compose_of_one_picture_is_that_picture() {
    let only = compose_solid(4, 3, 9);
    let expected = only.as_raw().clone();
    let out = compose(&vec![only]).unwrap();
    assert_eq!(out.width(), 4);
    assert_eq!(out.height(), 3);
    assert_eq!(out.as_raw(), &expected);
}

#[test]
fn compose_is_as_wide_as_the_widest_and_as_high_as_all() {
    let out = compose(&vec![compose_solid(2, 3, 1), compose_solid(5, 1, 2), compose_solid(3, 4, 3)])
        .unwrap();
    assert_eq!(out.width(), 5);
    assert_eq!(out.height(), 8);
}

#[test]
fn compose_stacks_in_order_and_pads_with_transparency() {
    let images = vec![compose_solid(2, 3, 1), compose_solid(5, 1, 2), compose_solid(3, 4, 3)];
    let out = compose(&images).unwrap();
    let tops = [0u32, 3, 4];
    for (k, image) in images.iter().enumerate() {
        for y in 0..image.height() {
            for x in 0..5u32 {
                let expected =
                    if x < image.width() { image.get_pixel(x, y) } else { COMPOSE_CLEAR };
                assert_eq!(out.get_pixel(x, tops[k] + y), expected, "picture {} at ({}, {})", k, x, y);
            }
        }
    }
}

#[test]
fn compose_order_matters() {
    let a = compose(&vec![compose_solid(1, 1, 1), compose_solid(1, 1, 2)]).unwrap();
    let b = compose(&vec![compose_solid(1, 1, 2), compose_solid(1, 1, 1)]).unwrap();
    assert_eq!(a.get_pixel(0, 0).r, 1);
    assert_eq!(a.get_pixel(0, 1).r, 2);
    assert_eq!(b.get_pixel(0, 0).r, 2);
    assert_eq!(b.get_pixel(0, 1).r, 1);
}

#[test]
fn compose_with_empty_pictures_skips_them() {
    let out =
        compose(&vec![compose_solid(0, 2, 1), compose_solid(3, 0, 2), compose_solid(2, 1, 3)])
            .unwrap();
    assert_eq!(out.width(), 3);
    assert_eq!(out.height(), 3);
    assert_eq!(out.get_pixel(0, 0), COMPOSE_CLEAR);
    assert_eq!(out.get_pixel(2, 1), COMPOSE_CLEAR);
    assert_eq!(out.get_pixel(0, 2), Pixel { r: 3, g: 0, b: 0, a: 255 });
    assert_eq!(out.get_pixel(2, 2), COMPOSE_CLEAR);
}

#[test]
fn compose_higher_than_a_picture_can_be_is_refused() {
    // Pictures without columns take no memory, whatever their height.
    let tall = || PixelBuffer::new(0, 1 << 31).unwrap();
    assert_eq!(compose(&vec![tall(), tall()]).err(), Some(PipelineError::TooLarge));
    let highest = compose(&vec![tall(), PixelBuffer::new(0, (1 << 31) - 1).unwrap()]).unwrap();
    assert_eq!(highest.height(), u32::MAX);
    assert_eq!(highest.width(), 0);
}
