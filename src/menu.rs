use vstd::prelude::*;
use crate::geometry::Vec3;
use crate::smoothing::{PSmoothing, PositionSmoothing, TargetPosition, DEFAULT_END_THRESHOLD};
use crate::responsive::{ResponsivePosition, ResponsiveValue, ResponsiveVec3};
use crate::color::{Color, TargetTextColor, TextColorSmoothing, brighten, brightened};
use crate::buttoning::{Anchor, ButtonClickEvent, ButtonClickType, Entity, HoverTransition, MouseButton};
use crate::world::{EntityData, World};

verus! {

/// The screens of the game.
#[derive(Clone, Copy, Debug, PartialEq, Eq, Hash, Structural)]
pub enum GameState {
    MainMenu,
    Exiting,
}

impl Default for GameState {
    fn default() -> (r: GameState)
        ensures
            r == GameState::MainMenu,
    {
        GameState::MainMenu
    }
}

/// State shared by the whole game; it holds nothing yet.
#[derive(Clone, Copy, Debug, Default, PartialEq, Eq, Structural)]
pub struct GameData {}

/// The actions of the main menu.
#[derive(Clone, Copy, Debug, PartialEq, Eq, Hash, Structural)]
pub enum MenuButton {
    Play,
    Quit,
    Settings,
}

/// The entities of the main menu.
#[derive(Clone, Copy, Debug, PartialEq, Eq, Structural)]
pub struct MenuController {
    pub title: Entity,
    pub play_button: Entity,
    pub quit_button: Entity,
}

/// Hover highlight factor: twice as bright, in thousandths.
pub const HOVER_BRIGHTEN: u32 = 2000;

/// Highlight factor of the quit button once clicked, in thousandths.
pub const QUIT_BRIGHTEN: u32 = 64_000;

/// Proportional colour rate of the quit button once clicked, in thousandths per second.
pub const QUIT_PROPORTIONAL: u32 = 350;

/// The colour of the quit button when it has none of its own.
pub open spec fn quit_fallback() -> Color {
    Color { red: 2100, green: 1400, blue: 1400, alpha: 1000 }
}

/// A menu text that starts below the screen and glides to its place in the
/// layout.
pub open spec fn menu_text(
    y_start: int,
    modifier: int,
    layout_y: int,
    color: Color,
) -> EntityData {
    EntityData {
        translation: Vec3 { x: 640_000, y: y_start as i32, z: 1000 },
        target: Some(TargetPosition(Vec3 { x: 640_000, y: 0, z: 0 })),
        smoothing: Some(PositionSmoothing::P(PSmoothing { modifier: modifier as u32, end_threshold: DEFAULT_END_THRESHOLD })),
        responsive: Some(ResponsivePosition {
            position: ResponsiveVec3 {
                x: ResponsiveValue::Percentage(50_000),
                y: ResponsiveValue::Percentage(layout_y as i32),
                z: ResponsiveValue::Absolute(0),
            },
        }),
        text_button: false,
        text_size: crate::geometry::Vec2 { x: 0, y: 0 },
        anchor: Anchor::Center,
        bounding_box: None,
        hover_test: false,
        clickable: false,
        hovered: false,
        text_color: color,
        target_color: None,
        color_smoothing: None,
        default_color: None,
        script_controlled: false,
        menu_button: None,
    }
}

/// The title of the main menu.
pub open spec fn title_entity() -> EntityData {
    EntityData {
        target: Some(TargetPosition(Vec3 { x: 0, y: 0, z: 0 })),
        ..menu_text(1_000_000, 2500, 90_000, Color { red: 1400, green: 2100, blue: 2400, alpha: 1000 })
    }
}

/// A button of the main menu.
pub open spec fn button_entity(modifier: int, layout_y: int, color: Color, button: MenuButton) -> EntityData {
    EntityData {
        text_button: true,
        target_color: Some(TargetTextColor(color)),
        color_smoothing: Some(TextColorSmoothing { flat: 1000, proportional: 8000 }),
        default_color: Some(color),
        menu_button: Some(button),
        ..menu_text(-250_000, modifier, layout_y, color)
    }
}

/// The play button of the main menu.
pub open spec fn play_entity() -> EntityData {
    button_entity(2300, 50_000, Color { red: 1400, green: 2100, blue: 1400, alpha: 1000 }, MenuButton::Play)
}

/// The quit button of the main menu.
pub open spec fn quit_entity() -> EntityData {
    button_entity(2100, 40_000, quit_fallback(), MenuButton::Quit)
}

fn menu_text_data(y_start: i32, modifier: u32, layout_y: i32, color: Color) -> (r: EntityData)
    ensures
        r == menu_text(y_start as int, modifier as int, layout_y as int, color),
{
    let mut e = EntityData::new(Vec3 { x: 640_000, y: y_start, z: 1000 });
    e.target = Some(TargetPosition(Vec3 { x: 640_000, y: 0, z: 0 }));
    e.smoothing = Some(PositionSmoothing::P(PSmoothing { modifier, end_threshold: DEFAULT_END_THRESHOLD }));
    e.responsive = Some(ResponsivePosition::new(
        ResponsiveValue::Percentage(50_000),
        ResponsiveValue::Percentage(layout_y),
        ResponsiveValue::Absolute(0),
    ));
    e.text_color = color;
    e
}

fn button_data(modifier: u32, layout_y: i32, color: Color, button: MenuButton) -> (r: EntityData)
    ensures
        r == button_entity(modifier as int, layout_y as int, color, button),
{
    let mut e = menu_text_data(-250_000, modifier, layout_y, color);
    e.text_button = true;
    e.target_color = Some(TargetTextColor(color));
    e.color_smoothing = Some(TextColorSmoothing::default());
    e.default_color = Some(color);
    e.menu_button = Some(button);
    e
}

/// Adds the title of the main menu.
pub fn spawn_title(world: &mut World) -> (r: Entity)
    requires
        old(world).view().len() < u32::MAX,
    ensures
        final(world).view() == old(world).view().push(title_entity()),
        r.index == old(world).view().len(),
{
    let mut e = menu_text_data(1_000_000, 2500, 90_000, Color { red: 1400, green: 2100, blue: 2400, alpha: 1000 });
    e.target = Some(TargetPosition::default());
    world.spawn(e)
}

/// Adds the play and quit buttons of the main menu.
pub fn spawn_buttons(world: &mut World) -> (r: (Entity, Entity))
    requires
        old(world).view().len() + 2 <= u32::MAX,
    ensures
        final(world).view() == old(world).view().push(play_entity()).push(quit_entity()),
        r.0.index == old(world).view().len(),
        r.1.index == old(world).view().len() + 1,
{
    let play = button_data(2300, 50_000, Color { red: 1400, green: 2100, blue: 1400, alpha: 1000 }, MenuButton::Play);
    let quit = button_data(2100, 40_000, Color { red: 2100, green: 1400, blue: 1400, alpha: 1000 }, MenuButton::Quit);
    (world.spawn(play), world.spawn(quit))
}

/// Builds the main menu: the title, then the play and quit buttons.
pub fn on_enter(world: &mut World) -> (r: MenuController)
    requires
        old(world).view().len() + 3 <= u32::MAX,
    ensures
        final(world).view() == old(world).view().push(title_entity()).push(play_entity()).push(quit_entity()),
        r.title.index == old(world).view().len(),
        r.play_button.index == old(world).view().len() + 1,
        r.quit_button.index == old(world).view().len() + 2,
{
    let title = spawn_title(world);
    let (play_button, quit_button) = spawn_buttons(world);
    MenuController { title, play_button, quit_button }
}

/// Whether the menu's own reactions apply to an entity: a menu button that no
/// script has taken over, with a target and a default colour.
pub open spec fn menu_reacts(e: EntityData) -> bool {
    e.menu_button is Some && !e.script_controlled && e.target_color is Some && e.default_color is Some
}

/// A menu button's reaction to its hover transition: entering highlights the
/// text, leaving restores its default colour.
pub open spec fn hover_color_one(e: EntityData, t: HoverTransition) -> EntityData {
    if menu_reacts(e) {
        match t {
            HoverTransition::Added => EntityData {
                target_color: Some(TargetTextColor(brightened(e.default_color.unwrap(), HOVER_BRIGHTEN as int))),
                ..e
            },
            HoverTransition::Removed => EntityData {
                target_color: Some(TargetTextColor(e.default_color.unwrap())),
                ..e
            },
            HoverTransition::Unchanged => e,
        }
    } else {
        e
    }
}

/// Applies each entity's hover transition, `hovers[i]` for entity `i`, to
/// the target colours of the menu buttons.
pub fn apply_hover_colors(world: &mut World, hovers: &Vec<HoverTransition>)
    ensures
        final(world).view().len() == old(world).view().len(),
        forall|i: int| 0 <= i < old(world).view().len() ==> final(world).view()[i] == (
            if i < hovers@.len() { hover_color_one(old(world).view()[i], hovers@[i]) } else { old(world).view()[i] }),
{
    let ghost start = world.view();
    let mut i: usize = 0;
    while i < world.entities.len() && i < hovers.len()
        invariant
            i <= world.entities@.len() == start.len(),
            i <= hovers@.len(),
            forall|j: int| 0 <= j < i ==> world.entities@[j] == hover_color_one(start[j], hovers@[j]),
            forall|j: int| i <= j < start.len() ==> world.entities@[j] == start[j],
        decreases start.len() - i,
    {
        let mut e = world.entities[i];
        match (e.menu_button, e.target_color, e.default_color) {
            (Some(_), Some(_), Some(d)) if !e.script_controlled => {
                match hovers[i] {
                    HoverTransition::Added => {
                        e.target_color = Some(TargetTextColor(brighten(d, HOVER_BRIGHTEN)));
                    },
                    HoverTransition::Removed => {
                        e.target_color = Some(TargetTextColor(d));
                    },
                    HoverTransition::Unchanged => {},
                }
            },
            _ => {},
        }
        world.entities.set(i, e);
        i = i + 1;
    }
}

/// The menu button a click event triggers, if any: a left press on a
/// hovered, clickable menu button that no script has taken over.
pub open spec fn clicked_button(ents: Seq<EntityData>, ev: ButtonClickEvent) -> Option<MenuButton> {
    if ev.mouse_button == MouseButton::Left && ev.click_type == ButtonClickType::Pressed
        && ev.entity.index < ents.len() {
        let e = ents[ev.entity.index as int];
        if e.hovered && e.clickable && !e.script_controlled { e.menu_button } else { None }
    } else {
        None
    }
}

/// The menu buttons triggered by the first `n` events, in order.
pub open spec fn clicked_buttons(ents: Seq<EntityData>, events: Seq<ButtonClickEvent>, n: int) -> Seq<MenuButton>
    decreases n,
{
    if n <= 0 {
        Seq::empty()
    } else {
        let before = clicked_buttons(ents, events, n - 1);
        match clicked_button(ents, events[n - 1]) {
            Some(b) => before.push(b),
            None => before,
        }
    }
}

/// The quit button once clicked: a script takes it over, its text glows
/// brightly and eases there slowly.
pub open spec fn quit_effect(e: EntityData) -> EntityData {
    let base = match e.default_color {
        Some(c) => c,
        None => quit_fallback(),
    };
    EntityData {
        script_controlled: true,
        target_color: match e.target_color {
            Some(_) => Some(TargetTextColor(brightened(base, QUIT_BRIGHTEN as int))),
            None => None,
        },
        color_smoothing: match e.color_smoothing {
            Some(s) => Some(TextColorSmoothing { proportional: QUIT_PROPORTIONAL, ..s }),
            None => None,
        },
        ..e
    }
}

/// Reacts to this frame's click events: returns the menu buttons they
/// trigger, in order, and hands the quit button over to its script when quit
/// was triggered. Without a menu nothing happens.
pub fn menu_button_clicks(
    world: &mut World,
    controller: Option<MenuController>,
    events: &Vec<ButtonClickEvent>,
) -> (r: Vec<MenuButton>)
    ensures
        controller is None ==> r@.len() == 0 && final(world).view() == old(world).view(),
        controller is Some ==> r@ == clicked_buttons(old(world).view(), events@, events@.len() as int),
        controller is Some ==> final(world).view() == (
            if r@.contains(MenuButton::Quit)
                && controller.unwrap().quit_button.index < old(world).view().len() {
                old(world).view().update(
                    controller.unwrap().quit_button.index as int,
                    quit_effect(old(world).view()[controller.unwrap().quit_button.index as int]),
                )
            } else {
                old(world).view()
            }),
{
    let mut clicked: Vec<MenuButton> = Vec::new();
    let c = match controller {
        Some(c) => c,
        None => return clicked,
    };
    let mut quit = false;
    let mut i: usize = 0;
    while i < events.len()
        invariant
            i <= events@.len(),
            clicked@ == clicked_buttons(world.view(), events@, i as int),
            quit == clicked@.contains(MenuButton::Quit),
        decreases events@.len() - i,
    {
        let ev = events[i];
        let left = match ev.mouse_button {
            MouseButton::Left => true,
            _ => false,
        };
        let pressed = match ev.click_type {
            ButtonClickType::Pressed => true,
            ButtonClickType::Released => false,
        };
        let ghost before = clicked@;
        if left && pressed && (ev.entity.index as usize) < world.entities.len() {
            let e = world.entities[ev.entity.index as usize];
            if e.hovered && e.clickable && !e.script_controlled {
                if let Some(b) = e.menu_button {
                    clicked.push(b);
                    let is_quit = match b {
                        MenuButton::Quit => true,
                        _ => false,
                    };
                    proof {
                        assert forall|m: MenuButton| clicked@.contains(m) <==> (before.contains(m) || m == b) by {
                            if clicked@.contains(m) {
                                let k = choose|k: int| 0 <= k < clicked@.len() && clicked@[k] == m;
                                if k < before.len() {
                                    assert(before[k] == m);
                                }
                            }
                            if before.contains(m) {
                                let k = choose|k: int| 0 <= k < before.len() && before[k] == m;
                                assert(clicked@[k] == m);
                            }
                            if m == b {
                                assert(clicked@[before.len() as int] == m);
                            }
                        }
                    }
                    quit = quit || is_quit;
                }
            }
        }
        i = i + 1;
    }
    proof {
        assert(events@.len() == i);
    }
    if quit && (c.quit_button.index as usize) < world.entities.len() {
        let k = c.quit_button.index as usize;
        let mut e = world.entities[k];
        let base = match e.default_color {
            Some(d) => d,
            None => Color { red: 2100, green: 1400, blue: 1400, alpha: 1000 },
        };
        e.script_controlled = true;
        if e.target_color.is_some() {
            e.target_color = Some(TargetTextColor(brighten(base, QUIT_BRIGHTEN)));
        }
        if let Some(s) = e.color_smoothing {
            e.color_smoothing = Some(TextColorSmoothing { proportional: QUIT_PROPORTIONAL, ..s });
        }
        world.entities.set(k, e);
    }
    clicked
}

} // verus!
