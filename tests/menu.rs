use ui_toolkit::buttoning::{ButtonClickEvent, ButtonClickType, HoverTransition, MouseButton};
use ui_toolkit::color::{Color, TargetTextColor};
use ui_toolkit::geometry::{Rect, Vec2, Vec3};
use ui_toolkit::menu::{
    apply_hover_colors, menu_button_clicks, on_enter, spawn_buttons, spawn_title, GameState, MenuButton,
    MenuController,
};
use ui_toolkit::pipeline::{FrameInput, GamePlugins};
use ui_toolkit::smoothing::{PositionSmoothing, TargetPosition};
use ui_toolkit::world::World;

fn menu() -> (World, MenuController) {
    let mut w = World::new();
    let c = on_enter(&mut w);
    w.entities[1].text_size = Vec2::new(80_000, 30_000);
    w.entities[2].text_size = Vec2::new(80_000, 30_000);
    (w, c)
}

fn frame(cursor: Option<Vec2>, pressed: Vec<MouseButton>, released: Vec<MouseButton>) -> FrameInput {
    FrameInput {
        delta_time: 16_666,
        viewport: Some(Rect::new(Vec2::new(0, 0), Vec2::new(1_280_000, 720_000))),
        cursor,
        just_pressed: pressed,
        just_released: released,
    }
}

fn press(entity: ui_toolkit::buttoning::Entity, button: MouseButton, kind: ButtonClickType) -> ButtonClickEvent {
    ButtonClickEvent { entity, mouse_position: Vec2::new(0, 0), mouse_button: button, click_type: kind }
}

#[test]
fn menu_is_built_in_order() {
    let (w, c) = menu();
    assert_eq!((c.title.index, c.play_button.index, c.quit_button.index), (0, 1, 2));
    let title = w.get(c.title).unwrap();
    assert_eq!(title.translation, Vec3::new(640_000, 1_000_000, 1000));
    assert_eq!(title.target, Some(TargetPosition(Vec3::new(0, 0, 0))));
    assert!(!title.text_button);
    let play = w.get(c.play_button).unwrap();
    assert_eq!(play.menu_button, Some(MenuButton::Play));
    assert_eq!(play.default_color, Some(Color::rgba(1400, 2100, 1400, 1000)));
    assert!(matches!(play.smoothing, Some(PositionSmoothing::P(p)) if p.modifier == 2300));
    let quit = w.get(c.quit_button).unwrap();
    assert_eq!(quit.menu_button, Some(MenuButton::Quit));
    assert_eq!(quit.target, Some(TargetPosition(Vec3::new(640_000, 0, 0))));
    assert_eq!(GameState::default(), GameState::MainMenu);
}

#[test]
fn spawning_pieces_separately() {
    let mut w = World::new();
    let t = spawn_title(&mut w);
    let (p, q) = spawn_buttons(&mut w);
    assert_eq!((t.index, p.index, q.index), (0, 1, 2));
}

#[test]
fn frame_moves_layout_and_detects_hover() {
    let (mut w, c) = menu();
    let events = GamePlugins.update(&mut w, &frame(Some(Vec2::new(640_000, 360_000)), vec![], vec![]));
    assert_eq!(w.get(c.play_button).unwrap().target, Some(TargetPosition(Vec3::new(640_000, 360_000, 0))));
    assert_eq!(w.get(c.title).unwrap().target, Some(TargetPosition(Vec3::new(640_000, 648_000, 0))));
    assert_eq!(events.hovers, vec![HoverTransition::Unchanged; 3]);
    let mut moved = w.get(c.play_button).unwrap().translation;
    for _ in 0..600 {
        GamePlugins.update(&mut w, &frame(None, vec![], vec![]));
        moved = w.get(c.play_button).unwrap().translation;
    }
    assert!((moved.y - 360_000).abs() < 2500);
    let events = GamePlugins.update(&mut w, &frame(Some(Vec2::new(640_000, 360_000)), vec![MouseButton::Left], vec![]));
    assert_eq!(events.hovers[1], HoverTransition::Added);
    assert_eq!(events.clicks.len(), 1);
    assert_eq!(events.clicks[0].entity, c.play_button);
}

#[test]
fn hover_highlights_and_restores() {
    let (mut w, c) = menu();
    let hovers = vec![HoverTransition::Added, HoverTransition::Added, HoverTransition::Unchanged];
    apply_hover_colors(&mut w, &hovers);
    assert_eq!(w.get(c.title).unwrap().target_color, None);
    assert_eq!(w.get(c.play_button).unwrap().target_color, Some(TargetTextColor(Color::rgba(2800, 4200, 2800, 1000))));
    assert_eq!(w.get(c.quit_button).unwrap().target_color, Some(TargetTextColor(Color::rgba(2100, 1400, 1400, 1000))));
    apply_hover_colors(&mut w, &vec![HoverTransition::Unchanged, HoverTransition::Removed]);
    assert_eq!(w.get(c.play_button).unwrap().target_color, Some(TargetTextColor(Color::rgba(1400, 2100, 1400, 1000))));
}

#[test]
fn quit_click_hands_button_to_script() {
    let (mut w, c) = menu();
    w.entities[2].hovered = true;
    w.entities[2].clickable = true;
    let events = vec![
        press(c.quit_button, MouseButton::Right, ButtonClickType::Pressed),
        press(c.quit_button, MouseButton::Left, ButtonClickType::Released),
        press(c.quit_button, MouseButton::Left, ButtonClickType::Pressed),
    ];
    let clicked = menu_button_clicks(&mut w, Some(c), &events);
    assert_eq!(clicked, vec![MenuButton::Quit]);
    let q = w.get(c.quit_button).unwrap();
    assert!(q.script_controlled);
    assert_eq!(q.target_color, Some(TargetTextColor(Color::rgba(134_400, 89_600, 89_600, 1000))));
    assert_eq!(q.color_smoothing.unwrap().proportional, 350);
    assert_eq!(q.color_smoothing.unwrap().flat, 1000);
    assert!(menu_button_clicks(&mut w, Some(c), &events).is_empty());
    apply_hover_colors(&mut w, &vec![HoverTransition::Unchanged, HoverTransition::Unchanged, HoverTransition::Removed]);
    assert_eq!(w.get(c.quit_button).unwrap().target_color, Some(TargetTextColor(Color::rgba(134_400, 89_600, 89_600, 1000))));
}

#[test]
fn play_click_changes_nothing() {
    let (mut w, c) = menu();
    w.entities[1].hovered = true;
    w.entities[1].clickable = true;
    let before = w.entities.clone();
    let clicked = menu_button_clicks(&mut w, Some(c), &vec![press(c.play_button, MouseButton::Left, ButtonClickType::Pressed)]);
    assert_eq!(clicked, vec![MenuButton::Play]);
    assert_eq!(w.entities, before);
    let unhovered = menu_button_clicks(&mut w, Some(c), &vec![press(c.quit_button, MouseButton::Left, ButtonClickType::Pressed)]);
    assert!(unhovered.is_empty());
    let none = menu_button_clicks(&mut w, None, &vec![press(c.play_button, MouseButton::Left, ButtonClickType::Pressed)]);
    assert!(none.is_empty());
}
