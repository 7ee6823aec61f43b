use pixels_canvas::canvas::Canvas;
use pixels_canvas::color::{Color, CHANNEL_ONE};
use pixels_canvas::elem::Element;
use pixels_canvas::error::CanvasError;
use pixels_canvas::pixels::Pixels;

fn red_buffer_2x2() -> Vec<u8> {
    // Four RGB records, all opaque red on the wire.
    vec![255, 0, 0, 255, 0, 0, 255, 0, 0, 255, 0, 0]
}

fn snapshot(canvas: &Canvas) -> Vec<((u32, u32), Color)> {
    canvas.get_main_layer().iter()
}

#[test]
fn new_canvas_mirrors_fetched_buffer() {
    let canvas = Canvas::new((2, 2), red_buffer_2x2());
    assert_eq!(canvas.width(), 2);
    assert_eq!(canvas.height(), 2);
    assert_eq!(canvas.size(), (2, 2));
    let red = Color::from_rgb(255, 0, 0);
    for y in 0..2 {
        for x in 0..2 {
            assert_eq!(canvas.get_pixel(x, y), Some(red));
        }
    }
    assert_eq!(canvas.get_pixel(2, 0), None);
    assert_eq!(canvas.get_cooldown(0), 0);
    assert_eq!(canvas.get_main_layer().opacity(), CHANNEL_ONE);
    assert_eq!(canvas.get_image_layer().opacity(), CHANNEL_ONE / 2);
    assert!(canvas.get_layer(0).is_some());
    assert!(canvas.get_layer(1).is_some());
    assert!(canvas.get_layer(2).is_none());
}

#[test]
fn write_ordering_failed_client_leaves_mirror_unchanged() {
    // A remote write that fails must leave the ground-truth layer pixel for
    // pixel identical and the cooldown untouched.
    let mut canvas = Canvas::new((2, 2), red_buffer_2x2());
    let before = snapshot(&canvas);
    let r = canvas.set_pixel_finish(0, 0, Color::from_rgb(0, 255, 0), None, 1_000);
    assert_eq!(r, Err(CanvasError::Client));
    assert_eq!(snapshot(&canvas), before);
    assert_eq!(canvas.get_cooldown(1_000), 0);
}

#[test]
fn successful_write_commits_after_acknowledgment() {
    let mut canvas = Canvas::new((2, 2), red_buffer_2x2());
    let green = Color::from_rgb(0, 255, 0);
    assert_eq!(canvas.set_pixel_admit(1_000), Ok(()));
    let r = canvas.set_pixel_finish(1, 0, green, Some((3, 0)), 1_000);
    assert_eq!(r, Ok(()));
    assert_eq!(canvas.get_pixel(1, 0), Some(green));
    // Quota was not exhausted, so no cooldown was armed.
    assert_eq!(canvas.get_cooldown(1_000), 0);
}

#[test]
fn cooldown_admission_after_exhausted_quota() {
    // A successful write reporting zero remaining quota and a five second
    // reset arms the cooldown: an immediate retry is rejected with the
    // remaining wait, and after five simulated seconds writes reopen.
    let mut canvas = Canvas::new((2, 2), red_buffer_2x2());
    let green = Color::from_rgb(0, 255, 0);
    let r = canvas.set_pixel_finish(0, 0, green, Some((0, 5_000)), 1_000);
    assert_eq!(r, Ok(()));
    assert_eq!(canvas.get_pixel(0, 0), Some(green));
    assert_eq!(canvas.set_pixel_admit(1_000), Err(CanvasError::Cooldown(5_000)));
    match canvas.set_pixel_admit(3_000) {
        Err(CanvasError::Cooldown(rem)) => {
            assert!(rem > 0 && rem <= 5_000);
            assert_eq!(rem, 3_000);
        }
        other => panic!("expected a cooldown rejection, got {:?}", other),
    }
    assert_eq!(canvas.set_pixel_admit(6_000), Ok(()));
    assert_eq!(canvas.set_pixel_admit(123_456), Ok(()));
}

#[test]
fn out_of_bounds_write_is_dropped_after_acknowledgment() {
    let mut canvas = Canvas::new((2, 2), red_buffer_2x2());
    let before = snapshot(&canvas);
    let r = canvas.set_pixel_finish(9, 9, Color::from_rgb(0, 255, 0), Some((1, 0)), 0);
    assert_eq!(r, Ok(()));
    assert_eq!(snapshot(&canvas), before);
}

#[test]
fn full_resync_overwrites_local_writes() {
    // After a resync the ground-truth layer equals exactly the freshly
    // fetched buffer; optimistic local state is discarded.
    let mut canvas = Canvas::new((2, 2), red_buffer_2x2());
    let green = Color::from_rgb(0, 255, 0);
    canvas
        .set_pixel_finish(0, 0, green, Some((1, 0)), 0)
        .unwrap();
    assert_eq!(canvas.get_pixel(0, 0), Some(green));
    let fresh = vec![1, 2, 3, 4, 5, 6, 7, 8, 9, 10, 11, 12];
    canvas.update_main_layer(fresh.clone());
    let expect = Pixels::from_buffer((2, 2), fresh, pixels_canvas::color::ColorMode::RGB);
    assert_eq!(canvas.get_main_layer().iter(), expect.iter());
    assert_eq!(canvas.get_main_layer().opacity(), CHANNEL_ONE);
}

#[test]
fn merged_view_equals_main_layer_when_overlay_is_blank() {
    // The blank overlay has zero alpha everywhere, so folding the stack
    // reproduces the ground-truth layer exactly.
    let canvas = Canvas::new((2, 2), red_buffer_2x2());
    let merged = canvas.get_layers_merged();
    assert_eq!(merged.iter(), canvas.get_main_layer().iter());
    assert_eq!(merged.opacity(), CHANNEL_ONE);
}

#[test]
fn placed_overlay_blends_into_merged_view() {
    // Staging an opaque blue stamp on the half-opacity overlay turns the
    // merged pixel into the exact red/blue midpoint.
    let mut canvas = Canvas::new((2, 2), red_buffer_2x2());
    let mut stamp = Pixels::new((1, 1));
    stamp.set(0, 0, Color::new(0, 0, CHANNEL_ONE, CHANNEL_ONE));
    let element = Element::new(stamp);
    canvas.place_overlay_image(&element);
    let merged = canvas.get_layers_merged();
    assert_eq!(
        merged.get_pixel(0, 0),
        Some(Color::new(CHANNEL_ONE / 2, 0, CHANNEL_ONE / 2, CHANNEL_ONE))
    );
    // Unstamped cells show the ground truth untouched.
    assert_eq!(merged.get_pixel(1, 1), Some(Color::from_rgb(255, 0, 0)));
    // The ground-truth layer itself was never written.
    assert_eq!(canvas.get_pixel(0, 0), Some(Color::from_rgb(255, 0, 0)));
}

#[test]
fn clear_overlay_restores_plain_merge() {
    let mut canvas = Canvas::new((2, 2), red_buffer_2x2());
    let mut stamp = Pixels::new((1, 1));
    stamp.set(0, 0, Color::new(0, 0, CHANNEL_ONE, CHANNEL_ONE));
    let element = Element::new(stamp);
    canvas.place_overlay_image(&element);
    canvas.clear_overlay_image();
    let merged = canvas.get_layers_merged();
    assert_eq!(merged.iter(), canvas.get_main_layer().iter());
}

#[test]
fn overlay_stamp_position_is_respected() {
    let mut canvas = Canvas::new((2, 2), red_buffer_2x2());
    let mut stamp = Pixels::new((1, 1));
    stamp.set(0, 0, Color::new(0, 0, CHANNEL_ONE, CHANNEL_ONE));
    let mut element = Element::new(stamp);
    element.set_position(1, 1);
    canvas.place_overlay_image(&element);
    let merged = canvas.get_layers_merged();
    assert_eq!(merged.get_pixel(0, 0), Some(Color::from_rgb(255, 0, 0)));
    assert_eq!(
        merged.get_pixel(1, 1),
        Some(Color::new(CHANNEL_ONE / 2, 0, CHANNEL_ONE / 2, CHANNEL_ONE))
    );
}
