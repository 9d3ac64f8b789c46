use wayper::transition::{Direction, Fraction, TransitionData, TransitionTypeEnum};

fn value(f: Fraction) -> f64 {
    f.num as f64 / f.den as f64
}

#[test]
fn eased_progress_is_monotonic_and_reaches_one() {
    let mut t = TransitionData::new(TransitionTypeEnum::Crossfade, 1000, 60, (0, 0), 0);
    assert_eq!(t.eased_progress(500), Fraction { num: 0, den: 1 });
    t.start(100);
    t.start(400);
    assert_eq!(t.start_time, Some(100));
    let mut last = 0.0;
    for now in (100..1300).step_by(7) {
        let e = t.eased_progress(now);
        assert!(e.num <= e.den);
        let v = value(e);
        assert!(v >= last);
        last = v;
    }
    let at_end = t.eased_progress(1100);
    assert_eq!(at_end.num, at_end.den);
    let after = t.eased_progress(5000);
    assert_eq!(after.num, after.den);
    assert!(t.is_complete(1100));
    assert!(!t.is_complete(1099));
}

#[test]
fn eased_progress_exact_values() {
    let mut t = TransitionData::new(TransitionTypeEnum::Crossfade, 4, 30, (0, 0), 0);
    t.start(0);
    // t = 1/4: 4 * (1/4)^3 = 1/16
    let q = t.eased_progress(1);
    assert_eq!(q, Fraction { num: 4, den: 64 });
    // t = 1/2: 1 - (1)^3 / 2 = 1/2
    let h = t.eased_progress(2);
    assert_eq!(h, Fraction { num: 32, den: 64 });
    // t = 3/4: 1 - (1/2)^3 / 2 = 15/16
    let tq = t.eased_progress(3);
    assert_eq!(tq, Fraction { num: 60, den: 64 });
    assert_eq!(t.progress(3), Fraction { num: 3, den: 4 });
    assert_eq!(t.progress(9), Fraction { num: 4, den: 4 });
}

#[test]
fn zero_duration_is_immediately_complete() {
    let mut t = TransitionData::new(TransitionTypeEnum::Sweep, 0, 30, (1, 0), 0);
    t.start(50);
    assert_eq!(t.progress(50), Fraction { num: 1, den: 1 });
    assert_eq!(t.eased_progress(50), Fraction { num: 1, den: 1 });
    assert!(t.is_complete(50));
}

#[test]
fn fps_throttle_spacing() {
    // 1000 / 60 is about 16.7 ms
    let mut t = TransitionData::new(TransitionTypeEnum::Crossfade, 1000, 60, (0, 0), 0);
    assert!(t.should_render_frame(20));
    assert!(!t.should_render_frame(30));
    assert_eq!(t.last_frame_time, 20);
    assert!(t.should_render_frame(37));
    assert_eq!(t.last_frame_time, 37);

    let mut u = TransitionData::new(TransitionTypeEnum::Crossfade, 1000, 10, (0, 0), 0);
    assert!(u.should_render_frame(100));
    assert!(u.should_render_frame(250));
    assert!(!u.should_render_frame(300));
}

#[test]
fn zero_fps_never_renders() {
    let mut t = TransitionData::new(TransitionTypeEnum::Crossfade, 1000, 0, (0, 0), 0);
    assert!(!t.should_render_frame(1_000_000));
}

#[test]
fn kind_codes_and_directions() {
    assert_eq!(TransitionTypeEnum::Crossfade.to_u32(), 0);
    assert_eq!(TransitionTypeEnum::Sweep.to_u32(), 1);
    assert_eq!(Direction::LeftToRight.as_vec2(), (1, 0));
    assert_eq!(Direction::RightToLeft.as_vec2(), (-1, 0));
    assert_eq!(Direction::TopToBottom.as_vec2(), (0, 1));
    assert_eq!(Direction::BottomToTop.as_vec2(), (0, -1));
    assert_eq!(Direction::TopLeftToBottomRight.as_vec2(), (1, 1));
    assert_eq!(Direction::TopRightToBottomLeft.as_vec2(), (-1, 1));
    assert_eq!(Direction::BottomLeftToTopRight.as_vec2(), (1, -1));
    assert_eq!(Direction::BottomRightToTopLeft.as_vec2(), (-1, -1));
}
