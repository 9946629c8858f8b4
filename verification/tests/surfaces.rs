use devotee::canvas::Canvas;
use devotee::image::Image;
use devotee::sprite::Sprite;
use devotee::vector::Vector;

#[derive(Clone, Copy, Debug, PartialEq, Eq)]
enum Color {
    Black,
    White,
}

#[test]
fn canvas_with_resolution_scenario() {
    let canvas = Canvas::with_resolution(Color::Black, 4, 3);
    assert_eq!(canvas.width(), 4);
    assert_eq!(canvas.height(), 3);
    assert_eq!(canvas.pixel(Vector::new(0, 0)), Some(&Color::Black));
    assert_eq!(canvas.pixel(Vector::new(4, 0)), None);
    assert_eq!(canvas.pixel(Vector::new(-1, 0)), None);
}

#[test]
fn canvas_checked_and_unchecked_agree() {
    let mut canvas = Canvas::with_resolution(0u8, 5, 4);
    *canvas.pixel_mut(Vector::new(2, 3)).unwrap() = 9;
    for y in 0..4 {
        for x in 0..5 {
            let p = Vector::new(x, y);
            assert_eq!(canvas.pixel(p).unwrap(), canvas.unsafe_pixel(p));
        }
    }
    assert_eq!(*canvas.unsafe_pixel(Vector::new(2, 3)), 9);
}

#[test]
fn canvas_out_of_bounds_absent() {
    let mut canvas = Canvas::with_resolution(1u8, 3, 2);
    for p in [
        Vector::new(-1, 0),
        Vector::new(0, -1),
        Vector::new(3, 0),
        Vector::new(0, 2),
        Vector::new(i32::MIN, i32::MIN),
        Vector::new(i32::MAX, 0),
    ] {
        assert_eq!(canvas.pixel(p), None);
        assert!(canvas.pixel_mut(p).is_none());
    }
}

#[test]
fn canvas_clear_fills_every_pixel() {
    let mut canvas = Canvas::with_resolution(Color::Black, 4, 3);
    canvas.clear(Color::White);
    assert_eq!(canvas.width(), 4);
    assert_eq!(canvas.height(), 3);
    for y in 0..3 {
        for x in 0..4 {
            assert_eq!(canvas.pixel(Vector::new(x, y)), Some(&Color::White));
        }
    }
}

#[test]
fn canvas_writes_through_pixel_mut() {
    let mut canvas = Canvas::with_resolution(0u8, 3, 3);
    *canvas.pixel_mut(Vector::new(1, 2)).unwrap() = 42;
    assert_eq!(canvas.pixel(Vector::new(1, 2)), Some(&42));
    assert_eq!(canvas.pixel(Vector::new(2, 1)), Some(&0));
    *canvas.unsafe_pixel_mut(Vector::new(0, 0)) = 7;
    assert_eq!(canvas.pixel(Vector::new(0, 0)), Some(&7));
}

#[test]
fn canvas_pixels_row_major_and_restartable() {
    let mut canvas = Canvas::with_resolution(0u8, 3, 2);
    *canvas.pixel_mut(Vector::new(1, 0)).unwrap() = 1;
    *canvas.pixel_mut(Vector::new(0, 1)).unwrap() = 2;
    let first: Vec<u8> = canvas.pixels().to_vec();
    assert_eq!(first, vec![0, 1, 0, 2, 0, 0]);
    let second: Vec<u8> = canvas.pixels().to_vec();
    assert_eq!(first, second);
}

#[test]
fn canvas_zero_sized_has_no_valid_coordinates() {
    let empty = Canvas::with_resolution(3u8, 0, 5);
    assert_eq!(empty.width(), 0);
    assert_eq!(empty.height(), 5);
    assert_eq!(empty.pixel(Vector::new(0, 0)), None);
    assert_eq!(empty.pixels().len(), 0);
    let flat = Canvas::with_resolution(3u8, 5, 0);
    assert_eq!(flat.pixel(Vector::new(0, 0)), None);
}

#[test]
fn sprite_with_data_checkerboard_iterates_row_major() {
    let mut data = [[0u8; 8]; 16];
    for (y, row) in data.iter_mut().enumerate() {
        for (x, cell) in row.iter_mut().enumerate() {
            *cell = ((x + y) % 2) as u8;
        }
    }
    let sprite: Sprite<u8, 8, 16> = Sprite::with_data(data);
    let pixels = sprite.pixels_vec();
    assert_eq!(pixels.len(), 128);
    for (i, value) in pixels.iter().enumerate() {
        let expected = ((i % 8 + i / 8) % 2) as u8;
        assert_eq!(*value, expected);
    }
}

#[test]
fn sprite_clear_then_iterate() {
    let mut sprite = Sprite::<u8, 8, 16>::with_color(0);
    sprite.clear(7);
    let pixels = sprite.pixels_vec();
    assert_eq!(pixels.len(), 128);
    assert!(pixels.iter().all(|value| *value == 7));
}

#[test]
fn sprite_iterator_counts_and_restarts() {
    let sprite = Sprite::<u8, 3, 2>::with_color(5);
    let mut iter = sprite.pixels();
    let mut first = Vec::new();
    while let Some(p) = iter.next() {
        first.push(*p);
    }
    assert_eq!(first.len(), 6);
    assert!(iter.next().is_none());
    let mut iter = sprite.pixels();
    let mut second = Vec::new();
    while let Some(p) = iter.next() {
        second.push(*p);
    }
    assert_eq!(first, second);
}

#[test]
fn sprite_checked_and_unchecked_agree() {
    let mut data = [[0u8; 4]; 3];
    data[1][2] = 11;
    data[2][0] = 22;
    let sprite: Sprite<u8, 4, 3> = Sprite::with_data(data);
    for y in 0..3 {
        for x in 0..4 {
            let p = Vector::new(x, y);
            assert_eq!(sprite.pixel(p).unwrap(), sprite.unsafe_pixel(p));
        }
    }
    assert_eq!(*sprite.unsafe_pixel(Vector::new(2, 1)), 11);
}

#[test]
fn sprite_out_of_bounds_absent() {
    let mut sprite = Sprite::<u8, 4, 3>::with_color(0);
    for p in [
        Vector::new(-1, 0),
        Vector::new(0, -1),
        Vector::new(4, 0),
        Vector::new(0, 3),
    ] {
        assert_eq!(sprite.pixel(p), None);
        assert!(sprite.pixel_mut(p).is_none());
    }
}

#[test]
fn sprite_writes_through_pixel_mut() {
    let mut sprite = Sprite::<u8, 4, 4>::with_color(0);
    *sprite.pixel_mut(Vector::new(3, 1)).unwrap() = 9;
    assert_eq!(sprite.pixel(Vector::new(3, 1)), Some(&9));
    assert_eq!(sprite.pixel(Vector::new(1, 3)), Some(&0));
    *sprite.unsafe_pixel_mut(Vector::new(0, 2)) = 4;
    assert_eq!(sprite.pixel(Vector::new(0, 2)), Some(&4));
}

#[test]
fn sprite_dimensions_and_clear_keep_size() {
    let mut sprite = Sprite::<Color, 8, 16>::with_color(Color::Black);
    assert_eq!(sprite.width(), 8);
    assert_eq!(sprite.height(), 16);
    sprite.clear(Color::White);
    assert_eq!(sprite.width(), 8);
    assert_eq!(sprite.height(), 16);
    assert_eq!(sprite.pixel(Vector::new(0, 0)), Some(&Color::White));
}

#[test]
fn sprite_default_is_uniform() {
    let sprite: Sprite<u8, 3, 3> = Default::default();
    let pixels = sprite.pixels_vec();
    assert_eq!(pixels.len(), 9);
    assert!(pixels.iter().all(|value| *value == 0));
}
