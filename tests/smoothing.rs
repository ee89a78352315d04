use ui_toolkit::geometry::{distance, Vec3};
use ui_toolkit::smoothing::{
    PFPSmoothing, PSmoothing, PositionSmoothing, DEFAULT_END_THRESHOLD, DEFAULT_FAR_MODIFIER,
    DEFAULT_SMOOTHING_SPEED,
};

fn p(modifier: u32, end_threshold: u32) -> PSmoothing {
    PSmoothing { modifier, end_threshold }
}

#[test]
fn distance_rounds_down() {
    assert_eq!(distance(Vec3::new(0, 0, 0), Vec3::new(3, 4, 0)), 5);
    assert_eq!(distance(Vec3::new(0, 0, 0), Vec3::new(1, 1, 0)), 1);
    assert_eq!(distance(Vec3::new(-2, 0, 0), Vec3::new(0, 0, 0)), 2);
    assert_eq!(distance(Vec3::new(i32::MIN, i32::MIN, i32::MIN), Vec3::new(i32::MAX, i32::MAX, i32::MAX)), 7439101571);
}

#[test]
fn pfp_default_fixed_speed_step() {
    let s = PFPSmoothing::default();
    let r = s.smooth_position(Vec3::new(0, 0, 0), Vec3::new(512_000, 0, 0), 20_000);
    assert_eq!(r, Vec3::new(2560, 0, 0));
}

#[test]
fn pfp_defaults() {
    let s = PFPSmoothing::default();
    assert_eq!(s.smoothing_speed, DEFAULT_SMOOTHING_SPEED);
    assert!(!s.far_speedup);
    assert!(s.near_slowdown);
    assert_eq!(s.far_threshold, None);
    assert_eq!(s.near_threshold, None);
    assert_eq!(s.far_modifier, DEFAULT_FAR_MODIFIER);
    assert_eq!(s.end_threshold, DEFAULT_END_THRESHOLD);
    assert!(matches!(PositionSmoothing::default(), PositionSmoothing::Instant));
}

#[test]
fn pfp_snaps_within_end_threshold() {
    let s = PFPSmoothing::default();
    let t = Vec3::new(1000, 1000, 0);
    assert_eq!(s.smooth_position(Vec3::new(0, 0, 0), t, 1), t);
}

#[test]
fn p_holds_within_end_threshold() {
    let c = Vec3::new(0, 0, 0);
    assert_eq!(p(2500, 2500).smooth_position(c, Vec3::new(1000, 1000, 0), 1_000_000), c);
}

#[test]
fn p_step_is_proportional() {
    let r = p(2500, 2500).smooth_position(Vec3::new(0, 0, 0), Vec3::new(3000, 4000, 0), 100_000);
    assert_eq!(r, Vec3::new(750, 1000, 0));
}

#[test]
fn p_large_step_clamps_at_target() {
    let t = Vec3::new(3000, 4000, 0);
    assert_eq!(p(2500, 2500).smooth_position(Vec3::new(0, 0, 0), t, 1_000_000), t);
    let back = Vec3::new(-3000, -4000, 0);
    assert_eq!(p(2500, 0).smooth_position(Vec3::new(0, 0, 0), back, u32::MAX), back);
}

#[test]
fn pfp_near_zone_slows_down() {
    let s = PFPSmoothing::default();
    let r = s.smooth_position(Vec3::new(0, 0, 0), Vec3::new(100_000, 0, 0), 100_000);
    assert_eq!(r, Vec3::new(10_000, 0, 0));
    let r = s.smooth_position(Vec3::new(0, 0, 0), Vec3::new(100_000, 0, 0), 1_000_000);
    assert_eq!(r, Vec3::new(100_000, 0, 0));
}

#[test]
fn pfp_far_zone_speeds_up() {
    let s = PFPSmoothing { far_speedup: true, ..PFPSmoothing::default() };
    let r = s.smooth_position(Vec3::new(0, 0, 0), Vec3::new(2_280_000, 0, 0), 100_000);
    assert_eq!(r, Vec3::new(112_800, 0, 0));
    let plain = PFPSmoothing::default();
    let r = plain.smooth_position(Vec3::new(0, 0, 0), Vec3::new(2_280_000, 0, 0), 100_000);
    assert_eq!(r, Vec3::new(12_800, 0, 0));
}

#[test]
fn pfp_thresholds_can_be_set() {
    let s = PFPSmoothing { near_threshold: Some(50_000), ..PFPSmoothing::default() };
    let r = s.smooth_position(Vec3::new(0, 0, 0), Vec3::new(0, -100_000, 0), 100_000);
    assert_eq!(r, Vec3::new(0, -12_800, 0));
}

#[test]
fn instant_policy_jumps() {
    let t = Vec3::new(5, -6, 7);
    assert_eq!(PositionSmoothing::Instant.smooth_position(Vec3::new(0, 0, 0), t, 0), t);
}

#[test]
fn never_overshoots_on_examples() {
    let c = Vec3::new(10, -20, 30);
    let t = Vec3::new(-7000, 12000, 400);
    let policies = [
        PositionSmoothing::Instant,
        PositionSmoothing::P(p(9000, 0)),
        PositionSmoothing::PFP(PFPSmoothing { far_speedup: true, ..PFPSmoothing::default() }),
    ];
    for pol in policies.iter() {
        for dt in [0u32, 1, 1000, 100_000, 10_000_000, u32::MAX] {
            let r = pol.smooth_position(c, t, dt);
            assert!(distance(c, r) <= distance(c, t));
        }
    }
}

#[test]
fn at_target_stays_for_every_policy() {
    let t = Vec3::new(123, 456, -789);
    for pol in [
        PositionSmoothing::Instant,
        PositionSmoothing::P(p(2500, 0)),
        PositionSmoothing::P(p(2500, 2500)),
        PositionSmoothing::PFP(PFPSmoothing { end_threshold: 0, ..PFPSmoothing::default() }),
        PositionSmoothing::PFP(PFPSmoothing::default()),
    ] {
        for dt in [0u32, 16_666, u32::MAX] {
            assert_eq!(pol.smooth_position(t, t, dt), t);
        }
    }
}

#[test]
fn split_frames_agree_when_settled() {
    let s = p(2500, 2500);
    let c = Vec3::new(0, 0, 0);
    let t = Vec3::new(1000, 0, 0);
    let mut pos = c;
    for _ in 0..4 {
        pos = s.smooth_position(pos, t, 25_000);
    }
    assert_eq!(pos, s.smooth_position(c, t, 100_000));
}

#[test]
fn split_frames_approximate_when_moving() {
    let s = p(2500, 0);
    let c = Vec3::new(0, 0, 0);
    let t = Vec3::new(3000, 4000, 0);
    let one = s.smooth_position(c, t, 100_000);
    let half = s.smooth_position(c, t, 50_000);
    let two = s.smooth_position(half, t, 50_000);
    assert_eq!(one, Vec3::new(750, 1000, 0));
    assert_eq!(two, Vec3::new(702, 936, 0));
    assert!(distance(one, two) < 100);
}

#[test]
fn pfp_split_frames_in_fixed_zone() {
    let s = PFPSmoothing::default();
    let c = Vec3::new(0, 0, 0);
    let t = Vec3::new(512_000, 0, 0);
    let one = s.smooth_position(c, t, 20_000);
    let two = s.smooth_position(s.smooth_position(c, t, 10_000), t, 10_000);
    assert_eq!(one, two);
    let near = Vec3::new(100_000, 0, 0);
    let one = s.smooth_position(c, near, 100_000);
    let two = s.smooth_position(s.smooth_position(c, near, 50_000), near, 50_000);
    assert_eq!(one, Vec3::new(10_000, 0, 0));
    assert_eq!(two, Vec3::new(9_750, 0, 0));
}
