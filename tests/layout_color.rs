use ui_toolkit::color::{brighten, smoothto, Color, TextColorSmoothing};
use ui_toolkit::geometry::{Rect, Vec2, Vec3};
use ui_toolkit::responsive::{ResponsivePosition, ResponsiveValue, ResponsiveVec2, ResponsiveVec3};

fn screen() -> Rect {
    Rect::new(Vec2::new(-640_000, -360_000), Vec2::new(640_000, 360_000))
}

#[test]
fn resolve_endpoints_and_absolute() {
    let a = screen();
    assert_eq!(ResponsiveValue::Percentage(0).resolve(a.min_x, a.max_x), -640_000);
    assert_eq!(ResponsiveValue::Percentage(100_000).resolve(a.min_x, a.max_x), 640_000);
    assert_eq!(ResponsiveValue::Absolute(7).resolve(a.min_x, a.max_x), 7);
    assert_eq!(ResponsiveValue::Absolute(7).resolve(5, -5), 7);
}

#[test]
fn resolve_percentages_round_down() {
    assert_eq!(ResponsiveValue::Percentage(50_000).resolve(0, 1000), 500);
    assert_eq!(ResponsiveValue::Percentage(-1).resolve(0, 1000), -1);
    assert_eq!(ResponsiveValue::Percentage(1).resolve(0, 1000), 0);
    assert_eq!(ResponsiveValue::Percentage(200_000).resolve(0, 1000), 2000);
    assert_eq!(ResponsiveValue::Percentage(i32::MAX).resolve(i64::MIN, i64::MAX), i32::MAX);
}

#[test]
fn resolve_three_dimensions() {
    let spec = ResponsivePosition::new(
        ResponsiveValue::Percentage(50_000),
        ResponsiveValue::Percentage(90_000),
        ResponsiveValue::Percentage(50_000),
    );
    assert_eq!(spec.position.resolve(screen()), Vec3::new(0, 288_000, 500));
    let fixed = ResponsiveVec3 {
        x: ResponsiveValue::Absolute(1),
        y: ResponsiveValue::Absolute(2),
        z: ResponsiveValue::Absolute(3),
    };
    assert_eq!(fixed.resolve(screen()), Vec3::new(1, 2, 3));
}

#[test]
fn resolve_two_dimensions_uses_each_axis_range() {
    let spec = ResponsiveVec2 { x: ResponsiveValue::Percentage(100_000), y: ResponsiveValue::Percentage(100_000) };
    assert_eq!(spec.resolve(screen()), Vec2::new(640_000, 360_000));
    let low = ResponsiveVec2 { x: ResponsiveValue::Percentage(0), y: ResponsiveValue::Percentage(0) };
    assert_eq!(low.resolve(screen()), Vec2::new(-640_000, -360_000));
}

#[test]
fn smoothto_moves_and_stops() {
    assert_eq!(smoothto(5, 10, 3), 8);
    assert_eq!(smoothto(10, 5, 3), 7);
    assert_eq!(smoothto(10, 5, 100), 5);
    assert_eq!(smoothto(5, 10, 100), 10);
    assert_eq!(smoothto(i32::MIN, i32::MAX, u128::MAX), i32::MAX);
}

#[test]
fn color_clamps_at_target() {
    let s = TextColorSmoothing { flat: 1000, proportional: 8000 };
    let r = s.smooth_color(Color::rgba(1000, 0, 0, 1000), Color::rgba(0, 0, 0, 1000), 10_000_000);
    assert_eq!(r, Color::rgba(0, 0, 0, 1000));
}

#[test]
fn color_step_is_flat_plus_proportional() {
    let s = TextColorSmoothing::default();
    assert_eq!(s.flat, 1000);
    assert_eq!(s.proportional, 8000);
    let r = s.smooth_color(Color::rgba(1000, 0, 500, 1000), Color::rgba(0, 0, 1000, 1000), 10_000);
    assert_eq!(r, Color::rgba(910, 0, 550, 1000));
}

#[test]
fn color_never_passes_target() {
    let s = TextColorSmoothing { flat: 50_000, proportional: 90_000 };
    let mut c = Color::rgba(2100, 1400, 0, 0);
    let t = Color::rgba(1400, 2100, 1000, 1000);
    for _ in 0..50 {
        c = s.smooth_color(c, t, 16_666);
        assert!(c.red >= 1400 && c.green <= 2100 && c.blue <= 1000 && c.alpha <= 1000);
    }
    assert_eq!(c, t);
}

#[test]
fn brighten_scales_rgb_only() {
    assert_eq!(brighten(Color::rgba(1400, 2100, 1400, 1000), 2000), Color::rgba(2800, 4200, 2800, 1000));
    assert_eq!(brighten(Color::rgba(2100, 1400, 1400, 500), 64_000), Color::rgba(134_400, 89_600, 89_600, 500));
    assert_eq!(brighten(Color::rgba(-1, 3, 1, 7), 500), Color::rgba(-1, 1, 0, 7));
}

#[test]
fn brighten_saturates() {
    assert_eq!(brighten(Color::rgba(i32::MAX, i32::MIN, 1, 1), 64_000), Color::rgba(i32::MAX, i32::MIN, 64, 1));
}
