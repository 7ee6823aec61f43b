use pixels_canvas::color::{Color, ColorMode, CHANNEL_ONE};
use pixels_canvas::elem::Element;
use pixels_canvas::layer::Layer;
use pixels_canvas::pixels::Pixels;

#[test]
fn overlay_compositing_half_blue_over_red() {
    // A fully opaque red base under an overlay of opacity one half holding
    // a fully opaque blue pixel yields the exact midpoint color with full
    // alpha at that pixel.
    let mut base_grid = Pixels::new((2, 2));
    let red = Color::new(CHANNEL_ONE, 0, 0, CHANNEL_ONE);
    for y in 0..2 {
        for x in 0..2 {
            base_grid.set(x, y, red);
        }
    }
    let base = Layer::from_pixels(base_grid, CHANNEL_ONE);
    let mut over = Layer::new((2, 2), CHANNEL_ONE / 2);
    over.set_pixel(0, 0, Color::new(0, 0, CHANNEL_ONE, CHANNEL_ONE));
    let merged = base.overlay(&over);
    assert_eq!(
        merged.get_pixel(0, 0),
        Some(Color::new(CHANNEL_ONE / 2, 0, CHANNEL_ONE / 2, CHANNEL_ONE))
    );
    // Cells the overlay leaves at the default color stay untouched.
    assert_eq!(merged.get_pixel(1, 1), Some(red));
    // The result carries the base layer's opacity.
    assert_eq!(merged.opacity(), CHANNEL_ONE);
}

#[test]
fn overlay_keeps_base_dimensions_against_smaller_layer() {
    let mut base_grid = Pixels::new((3, 1));
    let red = Color::from_rgb(255, 0, 0);
    for x in 0..3 {
        base_grid.set(x, 0, red);
    }
    let base = Layer::from_pixels(base_grid, CHANNEL_ONE);
    let mut small = Layer::new((1, 1), CHANNEL_ONE);
    small.set_pixel(0, 0, Color::from_rgb(0, 255, 0));
    let merged = base.overlay(&small);
    assert_eq!(merged.get_pixel(0, 0), Some(Color::from_rgb(0, 255, 0)));
    assert_eq!(merged.get_pixel(1, 0), Some(red));
    assert_eq!(merged.get_pixel(2, 0), Some(red));
}

#[test]
fn from_vec_decodes_rgb() {
    let l = Layer::from_vec((2, 1), vec![1, 2, 3, 4, 5, 6], CHANNEL_ONE);
    assert_eq!(l.get_pixel(0, 0), Some(Color::from_rgb(1, 2, 3)));
    assert_eq!(l.get_pixel(1, 0), Some(Color::from_rgb(4, 5, 6)));
}

#[test]
fn get_opacity_is_wire_byte() {
    assert_eq!(Layer::new((1, 1), CHANNEL_ONE).get_opacity(), 255);
    assert_eq!(Layer::new((1, 1), CHANNEL_ONE / 2).get_opacity(), 127);
    assert_eq!(Layer::new((1, 1), 0).get_opacity(), 0);
}

#[test]
fn clean_resets_to_blank_same_size() {
    let mut l = Layer::from_vec((2, 2), vec![9; 12], CHANNEL_ONE / 2);
    l.clean();
    for y in 0..2 {
        for x in 0..2 {
            assert_eq!(l.get_pixel(x, y), Some(Color::default()));
        }
    }
    assert_eq!(l.opacity(), CHANNEL_ONE / 2);
}

#[test]
fn set_pixels_replaces_grid_keeps_opacity() {
    let mut l = Layer::new((1, 1), CHANNEL_ONE / 2);
    let mut g = Pixels::new((2, 2));
    g.set(1, 1, Color::from_rgb(1, 2, 3));
    l.set_pixels(g);
    assert_eq!(l.get_pixel(1, 1), Some(Color::from_rgb(1, 2, 3)));
    assert_eq!(l.opacity(), CHANNEL_ONE / 2);
}

#[test]
fn draw_stamps_element_at_offset_with_clipping() {
    let mut l = Layer::new((3, 3), CHANNEL_ONE);
    let mut stamp = Pixels::new((2, 2));
    let c = Color::from_rgb(8, 8, 8);
    for y in 0..2 {
        for x in 0..2 {
            stamp.set(x, y, c);
        }
    }
    let mut e = Element::new(stamp);
    e.set_position(2, 2);
    assert_eq!(e.get_position(), (2, 2));
    l.draw(&e);
    // Only the overlapping cell changes; the rest of the stamp is clipped.
    assert_eq!(l.get_pixel(2, 2), Some(c));
    assert_eq!(l.get_pixel(1, 1), Some(Color::default()));
    assert_eq!(l.get_pixel(2, 1), Some(Color::default()));
    assert_eq!(l.get_pixel(1, 2), Some(Color::default()));
}

#[test]
fn layer_iter_matches_grid() {
    let l = Layer::from_vec((2, 1), vec![1, 1, 1, 2, 2, 2], CHANNEL_ONE);
    let items = l.iter();
    assert_eq!(items.len(), 2);
    assert_eq!(items[0], ((0, 0), Color::from_rgb(1, 1, 1)));
    assert_eq!(items[1], ((1, 0), Color::from_rgb(2, 2, 2)));
}
