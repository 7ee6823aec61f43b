use pixels_canvas::color::{Color, ColorMode, CHANNEL_ONE};
use pixels_canvas::pixels::Pixels;

fn rgb_buffer(bytes: &[u8]) -> Vec<u8> {
    bytes.to_vec()
}

#[test]
fn new_grid_is_default_filled() {
    let g = Pixels::new((3, 2));
    assert_eq!(g.width(), 3);
    assert_eq!(g.height(), 2);
    assert_eq!(g.size(), (3, 2));
    for y in 0..2 {
        for x in 0..3 {
            assert_eq!(g.get(x, y), Some(Color::default()));
        }
    }
}

#[test]
fn get_out_of_bounds_is_none() {
    let g = Pixels::new((3, 2));
    assert_eq!(g.get(3, 0), None);
    assert_eq!(g.get(0, 2), None);
    assert_eq!(g.get(3, 2), None);
    assert_eq!(g.get(u32::MAX, u32::MAX), None);
}

#[test]
fn set_out_of_bounds_leaves_cells_unchanged() {
    // The bounds clamp: writes at x >= w or y >= h change nothing.
    let mut g = Pixels::new((3, 2));
    g.set(1, 1, Color::from_rgb(9, 9, 9));
    let before = g.iter();
    g.set(3, 0, Color::from_rgb(1, 2, 3));
    g.set(0, 2, Color::from_rgb(1, 2, 3));
    g.set(u32::MAX, 0, Color::from_rgb(1, 2, 3));
    assert_eq!(g.iter(), before);
    assert_eq!(g.get(3, 0), None);
    assert_eq!(g.get(0, 2), None);
}

#[test]
fn set_then_get_in_bounds() {
    let mut g = Pixels::new((4, 4));
    let c = Color::from_rgb(1, 2, 3);
    g.set(2, 3, c);
    assert_eq!(g.get(2, 3), Some(c));
    assert_eq!(g.get(3, 2), Some(Color::default()));
}

#[test]
fn from_buffer_fills_row_major() {
    let buf = rgb_buffer(&[1, 2, 3, 4, 5, 6, 7, 8, 9, 10, 11, 12]);
    let g = Pixels::from_buffer((2, 2), buf, ColorMode::RGB);
    assert_eq!(g.get(0, 0), Some(Color::from_rgb(1, 2, 3)));
    assert_eq!(g.get(1, 0), Some(Color::from_rgb(4, 5, 6)));
    assert_eq!(g.get(0, 1), Some(Color::from_rgb(7, 8, 9)));
    assert_eq!(g.get(1, 1), Some(Color::from_rgb(10, 11, 12)));
}

#[test]
fn from_buffer_undersized_partial_fills() {
    // Seven bytes hold two whole RGB records; the third cell keeps the
    // default color and the construction does not fail.
    let buf = rgb_buffer(&[1, 2, 3, 4, 5, 6, 7]);
    let g = Pixels::from_buffer((2, 2), buf, ColorMode::RGB);
    assert_eq!(g.get(0, 0), Some(Color::from_rgb(1, 2, 3)));
    assert_eq!(g.get(1, 0), Some(Color::from_rgb(4, 5, 6)));
    assert_eq!(g.get(0, 1), Some(Color::default()));
    assert_eq!(g.get(1, 1), Some(Color::default()));
}

#[test]
fn from_buffer_oversized_ignores_tail() {
    let buf = rgb_buffer(&[1, 2, 3, 4, 5, 6, 99, 99, 99]);
    let g = Pixels::from_buffer((1, 2), buf, ColorMode::RGB);
    assert_eq!(g.get(0, 0), Some(Color::from_rgb(1, 2, 3)));
    assert_eq!(g.get(0, 1), Some(Color::from_rgb(4, 5, 6)));
}

#[test]
fn from_buffer_rgba_mode() {
    let buf = rgb_buffer(&[1, 2, 3, 4, 5, 6, 7, 8]);
    let g = Pixels::from_buffer((2, 1), buf, ColorMode::RGBA);
    assert_eq!(g.get(0, 0), Some(Color::from_rgba(1, 2, 3, 4)));
    assert_eq!(g.get(1, 0), Some(Color::from_rgba(5, 6, 7, 8)));
}

#[test]
fn iter_is_row_major_from_origin() {
    let buf = rgb_buffer(&[1, 1, 1, 2, 2, 2, 3, 3, 3, 4, 4, 4, 5, 5, 5, 6, 6, 6]);
    let g = Pixels::from_buffer((3, 2), buf, ColorMode::RGB);
    let items = g.iter();
    assert_eq!(items.len(), 6);
    let coords: Vec<(u32, u32)> = items.iter().map(|e| e.0).collect();
    assert_eq!(coords, vec![(0, 0), (1, 0), (2, 0), (0, 1), (1, 1), (2, 1)]);
    assert_eq!(items[0].1, Color::from_rgb(1, 1, 1));
    assert_eq!(items[5].1, Color::from_rgb(6, 6, 6));
}

#[test]
fn overlay_merges_cell_by_cell() {
    let mut base = Pixels::new((1, 1));
    base.set(0, 0, Color::new(CHANNEL_ONE, 0, 0, CHANNEL_ONE));
    let mut over = Pixels::new((1, 1));
    over.set(0, 0, Color::new(0, 0, CHANNEL_ONE, CHANNEL_ONE));
    let merged = base.overlay(&over, CHANNEL_ONE / 2);
    assert_eq!(
        merged.get(0, 0),
        Some(Color::new(CHANNEL_ONE / 2, 0, CHANNEL_ONE / 2, CHANNEL_ONE))
    );
}

#[test]
fn overlay_smaller_other_merges_against_default() {
    // Cells beyond the other grid's bounds merge against the default color,
    // so the result keeps this grid's dimensions and those cells unchanged.
    let mut base = Pixels::new((2, 1));
    let red = Color::from_rgb(255, 0, 0);
    base.set(0, 0, red);
    base.set(1, 0, red);
    let mut over = Pixels::new((1, 1));
    over.set(0, 0, Color::from_rgb(0, 0, 255));
    let merged = base.overlay(&over, CHANNEL_ONE);
    assert_eq!(merged.size(), (2, 1));
    assert_eq!(merged.get(0, 0), Some(Color::from_rgb(0, 0, 255)));
    assert_eq!(merged.get(1, 0), Some(red));
}

#[test]
fn region_replace_clips_at_the_edge() {
    // A 3x3 stamp at (2, 2) of a 4x4 grid copies only the overlapping 2x2
    // sub-rectangle; every other cell is untouched.
    let mut g = Pixels::new((4, 4));
    let keep = Color::from_rgb(7, 7, 7);
    for y in 0..4 {
        for x in 0..4 {
            g.set(x, y, keep);
        }
    }
    let mut stamp = Pixels::new((3, 3));
    for y in 0..3 {
        for x in 0..3 {
            stamp.set(x, y, Color::from_rgb((10 * x + y) as u8, 0, 0));
        }
    }
    g.replace_part_with_image(2, 2, &stamp);
    for y in 0..4u32 {
        for x in 0..4u32 {
            if x >= 2 && y >= 2 {
                let expect = Color::from_rgb((10 * (x - 2) + (y - 2)) as u8, 0, 0);
                assert_eq!(g.get(x, y), Some(expect));
            } else {
                assert_eq!(g.get(x, y), Some(keep));
            }
        }
    }
}

#[test]
fn region_replace_outside_origin_changes_nothing() {
    let mut g = Pixels::new((2, 2));
    let keep = Color::from_rgb(5, 5, 5);
    g.set(0, 0, keep);
    let before = g.iter();
    let mut stamp = Pixels::new((2, 2));
    stamp.set(0, 0, Color::from_rgb(9, 9, 9));
    g.replace_part_with_image(2, 0, &stamp);
    g.replace_part_with_image(0, 2, &stamp);
    g.replace_part_with_image(100, 100, &stamp);
    assert_eq!(g.iter(), before);
}
