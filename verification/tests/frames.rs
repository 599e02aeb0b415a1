use telemetryforge::frame::{
    alpha_bounds_above, append_bounded, changed_box, crop, plan_update, test_pattern, tint, visible_alpha_bounds,
    FrameUpdate, RgbFrame,
};

fn solid(width: u32, height: u32, colour: [u8; 3]) -> RgbFrame {
    let mut pixels = Vec::new();
    for _ in 0..width * height {
        pixels.extend_from_slice(&colour);
    }
    RgbFrame { width, height, pixels }
}

fn paint(frame: &mut RgbFrame, x: u32, y: u32, colour: [u8; 3]) {
    let at = 3 * (y * frame.width + x) as usize;
    frame.pixels[at..at + 3].copy_from_slice(&colour);
}

#[test]
fn the_first_frame_is_sent_whole() {
    assert_eq!(plan_update(None, &solid(4, 4, [0, 0, 0])), FrameUpdate::Full);
}

#[test]
fn an_identical_frame_sends_nothing() {
    let a = solid(4, 4, [9, 9, 9]);
    assert_eq!(plan_update(Some(&a), &a.clone()), FrameUpdate::Unchanged);
}

#[test]
fn a_small_change_sends_its_rectangle() {
    let a = solid(10, 10, [0, 0, 0]);
    let mut b = a.clone();
    paint(&mut b, 2, 3, [255, 0, 0]);
    paint(&mut b, 4, 1, [0, 255, 0]);
    assert_eq!(changed_box(&a, &b), Some((2, 1, 4, 3)));
    assert_eq!(plan_update(Some(&a), &b), FrameUpdate::Region { x: 2, y: 1, width: 3, height: 3 });
}

#[test]
fn a_large_change_sends_the_whole_frame() {
    let a = solid(4, 4, [0, 0, 0]);
    let mut b = a.clone();
    paint(&mut b, 0, 0, [1, 1, 1]);
    paint(&mut b, 3, 3, [1, 1, 1]);
    assert_eq!(plan_update(Some(&a), &b), FrameUpdate::Full);
    assert_eq!(plan_update(Some(&solid(2, 2, [0, 0, 0])), &a), FrameUpdate::Full);
}

#[test]
fn a_region_update_reproduces_the_new_frame() {
    let a = solid(8, 6, [0, 0, 0]);
    let mut b = a.clone();
    paint(&mut b, 5, 4, [7, 8, 9]);
    paint(&mut b, 6, 5, [1, 2, 3]);
    match plan_update(Some(&a), &b) {
        FrameUpdate::Region { x, y, width, height } => {
            let region = crop(&b, x, y, width, height);
            let mut rebuilt = a.clone();
            for ry in 0..height {
                for rx in 0..width {
                    let from = 3 * (ry * width + rx) as usize;
                    let mut colour = [0u8; 3];
                    colour.copy_from_slice(&region.pixels[from..from + 3]);
                    paint(&mut rebuilt, x + rx, y + ry, colour);
                }
            }
            assert_eq!(rebuilt.pixels, b.pixels);
        }
        other => panic!("expected a region, got {other:?}"),
    }
}

#[test]
fn the_test_pattern_has_four_quadrants() {
    let frame = test_pattern(4, 2);
    assert_eq!(frame.pixels.len(), 24);
    assert_eq!(&frame.pixels[0..3], &[255, 0, 0]);
    assert_eq!(&frame.pixels[9..12], &[0, 255, 0]);
    assert_eq!(&frame.pixels[12..15], &[0, 0, 255]);
    assert_eq!(&frame.pixels[21..24], &[255, 255, 255]);
}

#[test]
fn visible_bounds_ignore_faint_pixels() {
    let mut rgba = vec![0u8; 4 * 5 * 4];
    rgba[4 * (1 * 5 + 1) + 3] = 8;
    rgba[4 * (2 * 5 + 3) + 3] = 200;
    rgba[4 * (3 * 5 + 2) + 3] = 9;
    assert_eq!(visible_alpha_bounds(&rgba, 5, 4), Some((2, 2, 3, 3)));
    assert_eq!(alpha_bounds_above(&rgba, 5, 4, 0), Some((1, 1, 3, 3)));
    assert_eq!(alpha_bounds_above(&rgba, 5, 4, 200), None);
}

#[test]
fn tint_keeps_shape_and_scales_alpha() {
    let tinted = tint(&vec![10, 20, 30, 255, 1, 2, 3, 128], [200, 100, 50, 128]);
    assert_eq!(tinted, vec![200, 100, 50, 128, 200, 100, 50, 64]);
}

#[test]
fn histories_keep_the_latest_values() {
    let history = append_bounded(vec![1, 2, 3], Some(4), 3);
    assert_eq!(history, vec![2, 3, 4]);
    assert_eq!(append_bounded(history.clone(), None, 3), vec![2, 3, 4]);
    assert_eq!(append_bounded(vec![1.5f32], Some(2.5), 5), vec![1.5, 2.5]);
    assert_eq!(append_bounded(vec![1, 2, 3], None, 0), Vec::<i32>::new());
}
