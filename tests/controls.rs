use felix::controls::ReplayControls;

fn speed(rc: &ReplayControls) -> f64 {
    rc.speed_milli as f64 / 1000.0
}

fn fraction(rc: &ReplayControls) -> f64 {
    let (num, den) = rc.progress_fraction();
    num as f64 / den as f64
}

#[test]
fn new_defaults() {
    let rc = ReplayControls::new(100);
    assert!((speed(&rc) - 1.0).abs() < f64::EPSILON);
    assert!(!rc.paused);
    assert_eq!(rc.current_frame, 0);
    assert_eq!(rc.total_frames, 100);
}

#[test]
fn toggle_pause() {
    let mut rc = ReplayControls::new(10);
    assert!(!rc.paused);
    rc.toggle_pause();
    assert!(rc.paused);
    rc.toggle_pause();
    assert!(!rc.paused);
}

#[test]
fn speed_up_cycles() {
    let mut rc = ReplayControls::new(10);
    assert!((speed(&rc) - 1.0).abs() < f64::EPSILON);
    rc.speed_up();
    assert!((speed(&rc) - 2.0).abs() < f64::EPSILON);
    rc.speed_up();
    assert!((speed(&rc) - 4.0).abs() < f64::EPSILON);
    rc.speed_up();
    assert!((speed(&rc) - 8.0).abs() < f64::EPSILON);
    rc.speed_up();
    assert!((speed(&rc) - 16.0).abs() < f64::EPSILON);
    rc.speed_up();
    assert!((speed(&rc) - 16.0).abs() < f64::EPSILON);
}

#[test]
fn speed_down_cycles() {
    let mut rc = ReplayControls::new(10);
    rc.speed_down();
    assert!((speed(&rc) - 0.5).abs() < f64::EPSILON);
    rc.speed_down();
    assert!((speed(&rc) - 0.25).abs() < f64::EPSILON);
    rc.speed_down();
    assert!((speed(&rc) - 0.25).abs() < f64::EPSILON);
}

#[test]
fn seek_forward_clamps() {
    let mut rc = ReplayControls::new(5);
    rc.current_frame = 3;
    rc.seek_forward();
    assert_eq!(rc.current_frame, 4);
    rc.seek_forward();
    assert_eq!(rc.current_frame, 4);
}

#[test]
fn seek_backward_clamps() {
    let mut rc = ReplayControls::new(5);
    rc.current_frame = 1;
    rc.seek_backward();
    assert_eq!(rc.current_frame, 0);
    rc.seek_backward();
    assert_eq!(rc.current_frame, 0);
}

#[test]
fn seek_start_and_end() {
    let mut rc = ReplayControls::new(10);
    rc.current_frame = 5;
    rc.seek_end();
    assert_eq!(rc.current_frame, 9);
    rc.seek_start();
    assert_eq!(rc.current_frame, 0);
}

#[test]
fn progress_fraction_boundaries() {
    let mut rc = ReplayControls::new(100);
    assert!(fraction(&rc).abs() < f64::EPSILON);
    rc.current_frame = 99;
    assert!((fraction(&rc) - 1.0).abs() < f64::EPSILON);
    rc.current_frame = 49;
    let expected = 49.0 / 99.0;
    assert!((fraction(&rc) - expected).abs() < 0.001);
}

#[test]
fn progress_fraction_single_frame() {
    let rc = ReplayControls::new(1);
    assert!(fraction(&rc).abs() < f64::EPSILON);
}

#[test]
fn progress_fraction_zero_frames() {
    let rc = ReplayControls::new(0);
    assert!(fraction(&rc).abs() < f64::EPSILON);
}

#[test]
fn update_position() {
    let mut rc = ReplayControls::new(100);
    rc.update_position(42);
    assert_eq!(rc.current_frame, 42);
}

#[test]
fn seek_forward_zero_frames() {
    let mut rc = ReplayControls::new(0);
    rc.seek_forward();
    assert_eq!(rc.current_frame, 0);
}

#[test]
fn seek_end_zero_frames() {
    let mut rc = ReplayControls::new(0);
    rc.seek_end();
    assert_eq!(rc.current_frame, 0);
}
