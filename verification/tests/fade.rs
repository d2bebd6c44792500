use waysaver::fade::{FadeAnimator, FadeStep, Opacity, FADE_DURATION_MS, FRAME_TIME_MS};

fn as_float(opacity: Opacity) -> f64 {
    opacity.part as f64 / opacity.whole as f64
}

#[test]
fn standard_fade_takes_200_ms_in_frames_of_16() {
    assert_eq!(FADE_DURATION_MS, 200);
    assert_eq!(FRAME_TIME_MS, 16);
}

#[test]
fn standard_fade_starts_transparent() {
    let fade = FadeAnimator::standard();
    assert_eq!(fade.opacity(), Opacity { part: 0, whole: 200 });
    assert!(!fade.is_complete());
    assert_eq!(as_float(fade.opacity()), 0.0);
}

#[test]
fn standard_fade_is_opaque_after_13_steps() {
    let mut fade = FadeAnimator::standard();
    let mut steps: u32 = 0;
    loop {
        let step = fade.step();
        steps += 1;
        assert!(step.opacity.part <= step.opacity.whole);
        assert!(as_float(step.opacity) <= 1.0);
        if !step.reschedule {
            assert_eq!(step.opacity, Opacity { part: 200, whole: 200 });
            assert_eq!(as_float(step.opacity), 1.0);
            break;
        }
        assert!(as_float(step.opacity) < 1.0);
        assert!(steps < 13);
    }
    assert_eq!(steps, 13);
    assert!(fade.is_complete());
}

#[test]
fn each_step_adds_one_frame_of_the_duration() {
    let mut fade = FadeAnimator::standard();
    for count in 1..=12u32 {
        let step = fade.step();
        assert_eq!(step, FadeStep { opacity: Opacity { part: 16 * count, whole: 200 }, reschedule: true });
        assert!((as_float(step.opacity) - 0.08 * count as f64).abs() < 1e-12);
        assert_eq!(fade.opacity(), step.opacity);
    }
    let last = fade.step();
    assert_eq!(last, FadeStep { opacity: Opacity { part: 200, whole: 200 }, reschedule: false });
}

#[test]
fn opaque_fade_stays_opaque() {
    let mut fade = FadeAnimator::standard();
    for _ in 0..13 {
        fade.step();
    }
    for _ in 0..5 {
        let step = fade.step();
        assert_eq!(step, FadeStep { opacity: Opacity { part: 200, whole: 200 }, reschedule: false });
        assert!(fade.is_complete());
    }
}

#[test]
fn fade_without_duration_or_period_does_not_exist() {
    assert!(FadeAnimator::new(0, 16).is_none());
    assert!(FadeAnimator::new(200, 0).is_none());
    assert!(FadeAnimator::new(0, 0).is_none());
    assert!(FadeAnimator::new(1, 1).is_some());
}

#[test]
fn fade_that_divides_evenly_ends_on_its_last_frame() {
    let mut fade = FadeAnimator::new(160, 16).unwrap();
    for count in 1..=9u32 {
        let step = fade.step();
        assert_eq!(step.opacity, Opacity { part: 16 * count, whole: 160 });
        assert!(step.reschedule);
    }
    let last = fade.step();
    assert_eq!(last, FadeStep { opacity: Opacity { part: 160, whole: 160 }, reschedule: false });
}

#[test]
fn fade_shorter_than_one_frame_ends_at_once() {
    let mut fade = FadeAnimator::new(10, 16).unwrap();
    assert_eq!(fade.opacity(), Opacity { part: 0, whole: 10 });
    let step = fade.step();
    assert_eq!(step, FadeStep { opacity: Opacity { part: 10, whole: 10 }, reschedule: false });
}

#[test]
fn fade_with_the_largest_times_does_not_overflow() {
    let mut fade = FadeAnimator::new(u32::MAX, u32::MAX - 1).unwrap();
    let first = fade.step();
    assert_eq!(first, FadeStep { opacity: Opacity { part: u32::MAX - 1, whole: u32::MAX }, reschedule: true });
    let second = fade.step();
    assert_eq!(second, FadeStep { opacity: Opacity { part: u32::MAX, whole: u32::MAX }, reschedule: false });
}

#[test]
fn steps_needed_are_the_duration_over_the_period_rounded_up() {
    let cases: [(u32, u32, u32); 6] = [(200, 16, 13), (160, 16, 10), (1, 1, 1), (1, 1000, 1), (1000, 1, 1000), (17, 4, 5)];
    for (duration, period, expected) in cases {
        let mut fade = FadeAnimator::new(duration, period).unwrap();
        let mut steps: u32 = 0;
        loop {
            steps += 1;
            if !fade.step().reschedule {
                break;
            }
        }
        assert_eq!(steps, expected);
    }
}
