use paintboard::buffer::RasterBuffer;
use paintboard::buffer::RectError;
use paintboard::fill::fill;
use paintboard::Color;

#[test]
fn fill_replaces_a_bounded_region_exactly() {
    // A white 5x5 surface with a black ring around the single white pixel
    // at (2, 2): filling that pixel touches nothing else.
    let mut buf = RasterBuffer::new_filled(5, 5, (255, 255, 255, 255));
    buf.fill_rect(1, 1, 3, 3, (0, 0, 0, 255));
    buf.fill_rect(2, 2, 1, 1, (255, 255, 255, 255));
    fill(&mut buf, 2, 2, &Color::Red).unwrap();
    for y in 0..5 {
        for x in 0..5 {
            let expected = if x == 2 && y == 2 {
                (255, 0, 0, 255)
            } else if (1..4).contains(&x) && (1..4).contains(&y) {
                (0, 0, 0, 255)
            } else {
                (255, 255, 255, 255)
            };
            assert_eq!(buf.get_pixel(x, y), Some(expected), "pixel ({x}, {y})");
        }
    }
}

#[test]
fn fill_whole_surface_and_noop_on_same_color() {
    // A 10x10 all-white surface: filling at (5, 5) with red floods all of
    // it; filling again with red changes nothing.
    let mut buf = RasterBuffer::new_filled(10, 10, (255, 255, 255, 255));
    fill(&mut buf, 5, 5, &Color::Red).unwrap();
    for y in 0..10 {
        for x in 0..10 {
            assert_eq!(buf.get_pixel(x, y), Some((255, 0, 0, 255)));
        }
    }
    let before = buf.clone();
    fill(&mut buf, 5, 5, &Color::Red).unwrap();
    assert_eq!(buf, before);
}

#[test]
fn fill_rejects_a_seed_outside_the_surface() {
    let mut buf = RasterBuffer::new_filled(3, 3, (255, 255, 255, 255));
    let before = buf.clone();
    assert_eq!(fill(&mut buf, 3, 0, &Color::Red), Err(RectError::OutOfBounds));
    assert_eq!(fill(&mut buf, 0, 7, &Color::Red), Err(RectError::OutOfBounds));
    assert_eq!(buf, before);
}

#[test]
fn fill_continues_across_a_row_boundary() {
    // The fill walks linear pixel indices with no row check, so the left
    // neighbour of a row's first pixel is the last pixel of the row above:
    // with matching colors there, the fill crosses the boundary.
    let mut buf = RasterBuffer::new_filled(4, 2, (0, 0, 0, 255));
    buf.fill_rect(3, 0, 1, 1, (255, 255, 255, 255));
    buf.fill_rect(0, 1, 1, 1, (255, 255, 255, 255));
    fill(&mut buf, 0, 1, &Color::Red).unwrap();
    assert_eq!(buf.get_pixel(0, 1), Some((255, 0, 0, 255)));
    assert_eq!(buf.get_pixel(3, 0), Some((255, 0, 0, 255)));
    assert_eq!(buf.get_pixel(1, 1), Some((0, 0, 0, 255)));
    assert_eq!(buf.get_pixel(2, 0), Some((0, 0, 0, 255)));
}

#[test]
fn fill_with_custom_color_writes_its_bytes() {
    let mut buf = RasterBuffer::new_filled(2, 1, (255, 255, 255, 255));
    fill(&mut buf, 1, 0, &Color::Custom(10, 20, 30, 40)).unwrap();
    assert_eq!(buf.get_pixel(0, 0), Some((10, 20, 30, 40)));
    assert_eq!(buf.get_pixel(1, 0), Some((10, 20, 30, 40)));
}
