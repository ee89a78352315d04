use vstd::prelude::*;
use crate::geometry::{Vec2, Rect};
use crate::buttoning::{ButtonClickEvent, HoverTransition, MouseButton, GenericBoundingBox};
use crate::world::{
    World, EntityData, resolve_one, smooth_one, setup_one, refresh_one, hover_one, hover_change, color_one,
    clicks_upto,
};

verus! {

/// What the host hands the toolkit each frame.
pub struct FrameInput {
    /// Time since the previous frame, in microseconds.
    pub delta_time: u32,
    /// The visible area, if a camera is present.
    pub viewport: Option<Rect>,
    /// The cursor projected into world space, if a window, a camera and a
    /// cursor are present.
    pub cursor: Option<Vec2>,
    /// Buttons that went down this frame, each named once.
    pub just_pressed: Vec<MouseButton>,
    /// Buttons that came up this frame, each named once.
    pub just_released: Vec<MouseButton>,
}

/// What one frame reports to the host.
pub struct FrameEvents {
    /// Each entity's hover transition, or nothing when there was no cursor.
    pub hovers: Vec<HoverTransition>,
    /// This frame's click events.
    pub clicks: Vec<ButtonClickEvent>,
}

/// The toolkit's systems, run in their fixed order.
#[derive(Clone, Copy, Debug, Default, PartialEq, Eq, Structural)]
pub struct GamePlugins;

/// One entity after the frame's layout, movement, bounding box and hover
/// systems, in that order.
pub open spec fn frame_one(e: EntityData, viewport: Option<Rect>, cursor: Option<Vec2>, dt: int) -> EntityData {
    let resolved = match viewport {
        Some(a) => resolve_one(e, a),
        None => e,
    };
    let boxed = refresh_one(setup_one(smooth_one(resolved, dt), GenericBoundingBox::empty_spec()));
    match cursor {
        Some(c) => hover_one(boxed, c),
        None => boxed,
    }
}

impl GamePlugins {
    /// Runs the frame's systems up to click dispatch: target resolution,
    /// smoothing, first-sight setup and refresh of bounding boxes, hover
    /// testing, then clicks. Boxes are refreshed after positions move and
    /// before they are tested.
    pub fn update(&self, world: &mut World, input: &FrameInput) -> (r: FrameEvents)
        requires
            old(world).view().len() <= u32::MAX,
            input.just_pressed@.no_duplicates(),
            input.just_released@.no_duplicates(),
        ensures
            final(world).view().len() == old(world).view().len(),
            forall|i: int| 0 <= i < old(world).view().len() ==>
                final(world).view()[i] == frame_one(old(world).view()[i], input.viewport, input.cursor, input.delta_time as int),
            input.cursor is None ==> r.hovers@.len() == 0 && r.clicks@.len() == 0,
            input.cursor is Some ==> r.hovers@.len() == old(world).view().len(),
            input.cursor is Some ==> forall|i: int| 0 <= i < old(world).view().len() ==>
                r.hovers@[i] == hover_change(
                    refresh_one(setup_one(smooth_one(match input.viewport {
                        Some(a) => resolve_one(old(world).view()[i], a),
                        None => old(world).view()[i],
                    }, input.delta_time as int), GenericBoundingBox::empty_spec())),
                    input.cursor.unwrap(),
                ),
            input.cursor is Some ==> r.clicks@ == clicks_upto(
                final(world).view(), final(world).view().len() as int, input.cursor.unwrap(),
                input.just_pressed@, input.just_released@),
    {
        let ghost w0 = world.view();
        world.resolve_targets(input.viewport);
        let ghost w1 = world.view();
        world.update_smoothed(input.delta_time);
        let ghost w2 = world.view();
        world.setup_bounding_boxes();
        let ghost w3 = world.view();
        world.update_bounding_boxes();
        let ghost w4 = world.view();
        let hovers = world.update_hoverers(input.cursor);
        assert forall|i: int| 0 <= i < w0.len() implies
            world.view()[i] == frame_one(w0[i], input.viewport, input.cursor, input.delta_time as int) by {
            assert(w1[i] == match input.viewport { Some(a) => resolve_one(w0[i], a), None => w0[i] });
            assert(w2[i] == smooth_one(w1[i], input.delta_time as int));
            assert(w3[i] == setup_one(w2[i], GenericBoundingBox::empty_spec()));
            assert(w4[i] == refresh_one(w3[i]));
            match input.cursor {
                Some(c) => assert(world.view()[i] == hover_one(w4[i], c)),
                None => assert(world.view()[i] == w4[i]),
            }
        }
        let clicks = world.update_clicks(input.cursor, &input.just_pressed, &input.just_released);
        FrameEvents { hovers, clicks }
    }

    /// Runs the frame's last system, after the host has reacted to the
    /// events: colour smoothing.
    pub fn post_update(&self, world: &mut World, delta_time: u32)
        ensures
            final(world).view().len() == old(world).view().len(),
            forall|i: int| 0 <= i < old(world).view().len() ==>
                final(world).view()[i] == color_one(old(world).view()[i], delta_time as int),
    {
        world.update_text_colors(delta_time);
    }
}

} // verus!
