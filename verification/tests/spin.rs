use niri_zoom::spin::{LoopStep, SpinWatch};

#[test]
fn a_long_spin_is_found() {
    let mut watch = SpinWatch::new();
    for _ in 0..500 {
        assert_eq!(watch.observe(false, 999_999), LoopStep::Continue);
    }
    assert_eq!(watch.observe(false, 0), LoopStep::Abort);
}

#[test]
fn one_slow_wait_starts_the_count_anew() {
    let mut watch = SpinWatch::new();
    for _ in 0..3 {
        for _ in 0..500 {
            assert_eq!(watch.observe(false, 10), LoopStep::Continue);
        }
        assert_eq!(watch.observe(false, 1_000_000), LoopStep::Continue);
        assert_eq!(watch.fast_spins, 0);
    }
}

#[test]
fn the_loop_stops_when_asked() {
    let mut watch = SpinWatch::new();
    for _ in 0..500 {
        watch.observe(false, 0);
    }
    assert_eq!(watch.observe(true, 0), LoopStep::Stop);
    assert_eq!(watch.fast_spins, 500);
}
