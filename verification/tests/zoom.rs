use niri_zoom::zoom::{step_in, step_out, zoom_label};
use niri_zoom::{MAX_ZOOM, MIN_ZOOM, ZOOM_STEP, ZOOM_UNIT};

fn factor(zoom: u32) -> f32 {
    zoom as f32 / ZOOM_UNIT as f32
}

fn text(zoom: u32) -> String {
    zoom_label(zoom).into_iter().collect()
}

#[test]
fn zoom_constants_are_sane() {
    assert!(factor(MIN_ZOOM) < factor(MAX_ZOOM));
    assert!(factor(ZOOM_STEP) > 0.0);
    assert_eq!(factor(MIN_ZOOM), 1.0);
    assert!(factor(ZOOM_STEP) * 20.0 >= factor(MAX_ZOOM) - factor(MIN_ZOOM));
}

#[test]
fn levels_are_quarters_from_one_to_six() {
    assert_eq!(factor(ZOOM_STEP), 0.25);
    assert_eq!(factor(MAX_ZOOM), 6.0);
}

#[test]
fn steps_match_floating_point_steps() {
    let mut zoom = MIN_ZOOM;
    let mut reference: f32 = 1.0;
    for _ in 0..25 {
        zoom = step_in(zoom);
        reference = (reference + 0.25).min(6.0);
        assert_eq!(factor(zoom), reference);
    }
    for _ in 0..25 {
        zoom = step_out(zoom);
        reference = (reference - 0.25).max(1.0);
        assert_eq!(factor(zoom), reference);
    }
}

#[test]
fn steps_stop_at_the_ends() {
    assert_eq!(step_in(575), 600);
    assert_eq!(step_in(600), 600);
    assert_eq!(step_in(u32::MAX), 600);
    assert_eq!(step_out(125), 100);
    assert_eq!(step_out(100), 100);
    assert_eq!(step_out(0), 100);
}

#[test]
fn twenty_steps_span_the_range() {
    let mut zoom = MIN_ZOOM;
    for _ in 0..20 {
        assert!(zoom < MAX_ZOOM);
        zoom = step_in(zoom);
    }
    assert_eq!(zoom, MAX_ZOOM);
    for _ in 0..20 {
        assert!(zoom > MIN_ZOOM);
        zoom = step_out(zoom);
    }
    assert_eq!(zoom, MIN_ZOOM);
}

#[test]
fn steps_undo_each_other() {
    let mut zoom = MIN_ZOOM;
    while zoom < MAX_ZOOM {
        assert_eq!(step_out(step_in(zoom)), zoom);
        zoom += ZOOM_STEP;
        assert_eq!(step_in(step_out(zoom)), zoom);
    }
}

#[test]
fn labels_have_two_decimals() {
    assert_eq!(text(100), "1.00x");
    assert_eq!(text(275), "2.75x");
    assert_eq!(text(600), "6.00x");
    assert_eq!(text(0), "0.00x");
    assert_eq!(text(7), "0.07x");
    assert_eq!(text(123456), "1234.56x");
    assert_eq!(text(u32::MAX), "42949672.95x");
}

#[test]
fn labels_match_float_formatting() {
    let mut zoom = MIN_ZOOM;
    while zoom <= MAX_ZOOM {
        assert_eq!(text(zoom), format!("{:.2}x", factor(zoom)));
        zoom += ZOOM_STEP;
    }
}
