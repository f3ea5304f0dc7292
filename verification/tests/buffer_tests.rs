use paintboard::buffer::get_content_inside_rect;
use paintboard::buffer::RasterBuffer;
use paintboard::buffer::RectError;

#[test]
fn new_filled_sets_every_pixel() {
    let buf = RasterBuffer::new_filled(3, 2, (1, 2, 3, 4));
    assert_eq!(buf.width, 3);
    assert_eq!(buf.height, 2);
    assert_eq!(buf.data.len(), 3 * 2 * 4);
    for y in 0..2 {
        for x in 0..3 {
            assert_eq!(buf.get_pixel(x, y), Some((1, 2, 3, 4)));
        }
    }
    assert_eq!(buf.get_pixel(3, 0), None);
    assert_eq!(buf.get_pixel(0, 2), None);
}

#[test]
fn clear_blanks_the_surface() {
    let mut buf = RasterBuffer::new_filled(2, 2, (9, 9, 9, 9));
    buf.clear();
    assert_eq!(buf.width, 2);
    assert_eq!(buf.height, 2);
    assert!(buf.data.iter().all(|b| *b == 0));
}

#[test]
fn fill_rect_paints_only_the_rectangle() {
    let mut buf = RasterBuffer::new_filled(4, 4, (0, 0, 0, 255));
    buf.fill_rect(1, 2, 2, 1, (5, 6, 7, 8));
    for y in 0..4 {
        for x in 0..4 {
            let expected = if (1..3).contains(&x) && y == 2 {
                (5, 6, 7, 8)
            } else {
                (0, 0, 0, 255)
            };
            assert_eq!(buf.get_pixel(x, y), Some(expected));
        }
    }
}

#[test]
fn capture_rejects_empty_and_out_of_bounds() {
    let buf = RasterBuffer::new_filled(4, 4, (0, 0, 0, 255));
    assert_eq!(
        get_content_inside_rect(&buf, 0, 0, 0, 3).unwrap_err(),
        RectError::Empty
    );
    assert_eq!(
        get_content_inside_rect(&buf, 2, 0, 1, 0).unwrap_err(),
        RectError::Empty
    );
    assert_eq!(
        get_content_inside_rect(&buf, -1, 0, 2, 2).unwrap_err(),
        RectError::OutOfBounds
    );
    assert_eq!(
        get_content_inside_rect(&buf, 3, 3, 2, 2).unwrap_err(),
        RectError::OutOfBounds
    );
}

#[test]
fn capture_copies_the_rectangle() {
    let mut buf = RasterBuffer::new_filled(4, 3, (0, 0, 0, 255));
    buf.fill_rect(2, 1, 1, 1, (10, 20, 30, 40));
    let snap = get_content_inside_rect(&buf, 1, 0, 2, 2).unwrap();
    assert_eq!(snap.width, 2);
    assert_eq!(snap.height, 2);
    assert_eq!(snap.get_pixel(0, 0), Some((0, 0, 0, 255)));
    assert_eq!(snap.get_pixel(1, 0), Some((0, 0, 0, 255)));
    assert_eq!(snap.get_pixel(0, 1), Some((0, 0, 0, 255)));
    assert_eq!(snap.get_pixel(1, 1), Some((10, 20, 30, 40)));
}

#[test]
fn put_onto_clips_at_the_edges() {
    let src = RasterBuffer::new_filled(2, 2, (7, 7, 7, 7));
    let snap = src.snapshot();
    let mut dst = RasterBuffer::new_filled(3, 3, (1, 1, 1, 1));
    snap.put_onto(&mut dst, -1, -1);
    for y in 0..3 {
        for x in 0..3 {
            let expected = if x == 0 && y == 0 { (7, 7, 7, 7) } else { (1, 1, 1, 1) };
            assert_eq!(dst.get_pixel(x, y), Some(expected));
        }
    }
}

#[test]
fn snapshot_duplicate_is_equal() {
    let mut buf = RasterBuffer::new_filled(2, 2, (1, 2, 3, 4));
    buf.fill_rect(0, 1, 1, 1, (9, 9, 9, 9));
    let snap = buf.snapshot();
    let dup = snap.duplicate();
    assert_eq!(snap, dup);
    assert_eq!(dup.get_pixel(0, 1), Some((9, 9, 9, 9)));
}
