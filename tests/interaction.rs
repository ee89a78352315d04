use ui_toolkit::buttoning::{
    hover_transition, Anchor, ButtonClickType, Entity, GenericBoundingBox, HoverTransition, MouseButton,
    TextButton,
};
use ui_toolkit::color::{Color, TargetTextColor, TextColorSmoothing};
use ui_toolkit::geometry::{Rect, Vec2, Vec3};
use ui_toolkit::responsive::{ResponsivePosition, ResponsiveValue};
use ui_toolkit::smoothing::{PSmoothing, PositionSmoothing, TargetPosition};
use ui_toolkit::world::{EntityData, World};

fn button_at(x: i32, y: i32, w: i32, h: i32) -> EntityData {
    let mut e = EntityData::new(Vec3::new(x, y, 0));
    e.text_button = true;
    e.text_size = Vec2::new(w, h);
    e
}

#[test]
fn bounding_box_centred() {
    let b = TextButton::bounding_box(Vec2::new(100_000, 40_000), Anchor::Center, Vec3::new(150_000, 150_000, 0));
    assert_eq!(b.rect, Rect { min_x: 100_000, min_y: 130_000, max_x: 200_000, max_y: 170_000 });
}

#[test]
fn bounding_box_anchored_bottom_left() {
    let b = TextButton::bounding_box(Vec2::new(100_000, 40_000), Anchor::BottomLeft, Vec3::new(150_000, 150_000, 0));
    assert_eq!(b.rect, Rect { min_x: 150_000, min_y: 150_000, max_x: 250_000, max_y: 190_000 });
    let c = TextButton::bounding_box(Vec2::new(10, 10), Anchor::Custom(Vec2::new(250, -250)), Vec3::new(0, 0, 0));
    assert_eq!(c.rect, Rect { min_x: -7, min_y: -2, max_x: 3, max_y: 8 });
}

#[test]
fn rect_contains_edges() {
    let r = Rect::new(Vec2::new(100, 100), Vec2::new(200, 200));
    assert!(r.contains(Vec2::new(100, 200)));
    assert!(r.contains(Vec2::new(150, 150)));
    assert!(!r.contains(Vec2::new(99, 150)));
    assert!(!r.contains(Vec2::new(150, 201)));
    assert!(!Rect::empty().contains(Vec2::new(0, 0)));
    assert!(!GenericBoundingBox::empty().rect.contains(Vec2::new(i32::MAX, i32::MIN)));
}

#[test]
fn hover_transitions() {
    assert_eq!(hover_transition(false, true), HoverTransition::Added);
    assert_eq!(hover_transition(true, false), HoverTransition::Removed);
    assert_eq!(hover_transition(true, true), HoverTransition::Unchanged);
    assert_eq!(hover_transition(false, false), HoverTransition::Unchanged);
}

#[test]
fn setup_equips_text_buttons_once() {
    let mut w = World::new();
    let b = w.spawn(button_at(0, 0, 10, 10));
    let plain = w.spawn(EntityData::new(Vec3::new(0, 0, 0)));
    w.setup_bounding_boxes();
    let e = w.get(b).unwrap();
    assert!(e.hover_test && e.clickable && e.bounding_box.is_some());
    assert!(!e.bounding_box.unwrap().rect.contains(Vec2::new(0, 0)));
    let p = w.get(plain).unwrap();
    assert!(!p.hover_test && !p.clickable && p.bounding_box.is_none());
    w.update_bounding_boxes();
    let refreshed = w.get(b).unwrap();
    w.setup_bounding_boxes();
    assert_eq!(w.get(b).unwrap(), refreshed);
    assert_eq!(w.get(Entity { index: 9 }), None);
}

#[test]
fn hover_enters_stays_and_leaves() {
    let mut w = World::new();
    let b = w.spawn(button_at(150_000, 150_000, 100_000, 100_000));
    w.setup_bounding_boxes();
    w.update_bounding_boxes();
    assert_eq!(w.update_hoverers(Some(Vec2::new(0, 0))), vec![HoverTransition::Unchanged]);
    assert!(!w.get(b).unwrap().hovered);
    assert_eq!(w.update_hoverers(Some(Vec2::new(150_000, 150_000))), vec![HoverTransition::Added]);
    assert_eq!(w.update_hoverers(Some(Vec2::new(160_000, 150_000))), vec![HoverTransition::Unchanged]);
    assert!(w.get(b).unwrap().hovered);
    assert_eq!(w.update_hoverers(None), vec![]);
    assert!(w.get(b).unwrap().hovered);
    assert_eq!(w.update_hoverers(Some(Vec2::new(300_000, 150_000))), vec![HoverTransition::Removed]);
    assert!(!w.get(b).unwrap().hovered);
}

#[test]
fn never_entered_never_hovered() {
    let mut w = World::new();
    let b = w.spawn(button_at(150_000, 150_000, 100_000, 100_000));
    w.setup_bounding_boxes();
    w.update_bounding_boxes();
    for x in [0, 50_000, 99_999, 200_001, 400_000] {
        let t = w.update_hoverers(Some(Vec2::new(x, 150_000)));
        assert_eq!(t, vec![HoverTransition::Unchanged]);
        assert!(!w.get(b).unwrap().hovered);
    }
}

#[test]
fn click_pressed_then_released() {
    let mut w = World::new();
    let b = w.spawn(button_at(150_000, 150_000, 100_000, 100_000));
    w.setup_bounding_boxes();
    w.update_bounding_boxes();
    let r = w.get(b).unwrap().bounding_box.unwrap().rect;
    assert_eq!(r, Rect { min_x: 100_000, min_y: 100_000, max_x: 200_000, max_y: 200_000 });
    let cursor = Some(Vec2::new(150_000, 150_000));
    w.update_hoverers(cursor);
    let first = w.update_clicks(cursor, &vec![MouseButton::Left], &vec![]);
    assert_eq!(first.len(), 1);
    assert_eq!(first[0].entity, b);
    assert_eq!(first[0].mouse_button, MouseButton::Left);
    assert_eq!(first[0].click_type, ButtonClickType::Pressed);
    assert_eq!(first[0].mouse_position, Vec2::new(150_000, 150_000));
    w.update_hoverers(cursor);
    let second = w.update_clicks(cursor, &vec![], &vec![MouseButton::Left]);
    assert_eq!(second.len(), 1);
    assert_eq!(second[0].entity, b);
    assert_eq!(second[0].click_type, ButtonClickType::Released);
}

#[test]
fn clicks_need_hover_clickable_and_cursor() {
    let mut w = World::new();
    let far = w.spawn(button_at(0, 0, 10, 10));
    let near = w.spawn(button_at(1000, 1000, 10, 10));
    w.setup_bounding_boxes();
    w.update_bounding_boxes();
    let cursor = Some(Vec2::new(1000, 1000));
    w.update_hoverers(cursor);
    let pressed = vec![MouseButton::Left, MouseButton::Right, MouseButton::Other(7)];
    let events = w.update_clicks(cursor, &pressed, &vec![MouseButton::Middle]);
    assert_eq!(events.len(), 4);
    assert!(events.iter().all(|e| e.entity == near && e.entity != far));
    assert_eq!(events[2].mouse_button, MouseButton::Other(7));
    assert_eq!(events[3].click_type, ButtonClickType::Released);
    assert!(w.update_clicks(None, &pressed, &vec![]).is_empty());
}

#[test]
fn targets_follow_layout() {
    let mut w = World::new();
    let mut smoothed = EntityData::new(Vec3::new(0, 0, 0));
    let layout = ResponsivePosition::new(
        ResponsiveValue::Percentage(50_000),
        ResponsiveValue::Percentage(50_000),
        ResponsiveValue::Absolute(0),
    );
    smoothed.responsive = Some(layout);
    smoothed.target = Some(TargetPosition::default());
    let mut direct = EntityData::new(Vec3::new(0, 0, 0));
    direct.responsive = Some(layout);
    let a = w.spawn(smoothed);
    let d = w.spawn(direct);
    w.resolve_targets(None);
    assert_eq!(w.get(d).unwrap().translation, Vec3::new(0, 0, 0));
    let area = Rect::new(Vec2::new(0, 0), Vec2::new(1_280_000, 720_000));
    w.resolve_targets(Some(area));
    assert_eq!(w.get(a).unwrap().target, Some(TargetPosition(Vec3::new(640_000, 360_000, 0))));
    assert_eq!(w.get(a).unwrap().translation, Vec3::new(0, 0, 0));
    assert_eq!(w.get(d).unwrap().translation, Vec3::new(640_000, 360_000, 0));
    assert_eq!(w.get(d).unwrap().target, None);
}

#[test]
fn smoothing_system_moves_toward_target() {
    let mut w = World::new();
    let mut e = EntityData::new(Vec3::new(0, 0, 0));
    e.smoothing = Some(PositionSmoothing::P(PSmoothing { modifier: 2500, end_threshold: 2500 }));
    e.target = Some(TargetPosition(Vec3::new(3000, 4000, 0)));
    let id = w.spawn(e);
    let still = w.spawn(EntityData::new(Vec3::new(1, 2, 3)));
    w.update_smoothed(100_000);
    assert_eq!(w.get(id).unwrap().translation, Vec3::new(750, 1000, 0));
    assert_eq!(w.get(still).unwrap().translation, Vec3::new(1, 2, 3));
}

#[test]
fn color_system_eases_text() {
    let mut w = World::new();
    let mut e = EntityData::new(Vec3::new(0, 0, 0));
    e.text_color = Color::rgba(1000, 0, 0, 1000);
    e.target_color = Some(TargetTextColor(Color::rgba(0, 0, 0, 1000)));
    e.color_smoothing = Some(TextColorSmoothing::default());
    let id = w.spawn(e);
    w.update_text_colors(10_000);
    assert_eq!(w.get(id).unwrap().text_color, Color::rgba(910, 0, 0, 1000));
    w.update_text_colors(u32::MAX);
    assert_eq!(w.get(id).unwrap().text_color, Color::rgba(0, 0, 0, 1000));
}
