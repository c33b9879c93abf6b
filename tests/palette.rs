use fractal::palette::{color_for, color_stop, map_iterations_to_pixel, Color};

fn rgb(r: u8, g: u8, b: u8) -> Color {
    Color { r, g, b }
}

#[test]
fn bounded_is_black() {
    assert_eq!(color_for(None), rgb(0, 0, 0));
}

#[test]
fn escape_at_zero_is_white() {
    assert_eq!(color_for(Some(0)), rgb(255, 255, 255));
    assert_eq!(map_iterations_to_pixel(0), rgb(255, 255, 255));
}

#[test]
fn escape_at_top_threshold_is_black() {
    // A step at the highest threshold falls on the first control point,
    // which is black by the table's defensive rule.
    assert_eq!(color_for(Some(1024)), rgb(0, 0, 0));
    assert_eq!(map_iterations_to_pixel(u16::MAX), rgb(0, 0, 0));
}

#[test]
fn escape_just_below_cap() {
    assert_eq!(map_iterations_to_pixel(1023), rgb(0, 0, 0));
}

#[test]
fn exact_thresholds_give_stop_colors() {
    assert_eq!(map_iterations_to_pixel(256), rgb(0, 0, 64));
    assert_eq!(map_iterations_to_pixel(192), rgb(102, 0, 0));
    assert_eq!(map_iterations_to_pixel(128), rgb(255, 0, 0));
    assert_eq!(map_iterations_to_pixel(64), rgb(255, 165, 0));
}

#[test]
fn interpolated_colors() {
    assert_eq!(map_iterations_to_pixel(100), rgb(255, 72, 0));
    assert_eq!(map_iterations_to_pixel(160), rgb(178, 0, 0));
    assert_eq!(map_iterations_to_pixel(32), rgb(255, 210, 127));
}

#[test]
fn color_table_descends() {
    let mut previous = u32::MAX;
    for i in 0..6 {
        let (threshold, _) = color_stop(i);
        assert!(threshold < previous);
        previous = threshold;
    }
    assert_eq!(color_stop(0), (1024, rgb(0, 0, 0)));
    assert_eq!(color_stop(5), (0, rgb(255, 255, 255)));
}
