use vstd::prelude::*;
use crate::geometry::{Vec2, Vec3, Rect, floor_div};

verus! {

/// Marks an entity as a text button: it is given a bounding box, hover
/// testing and clickability when first seen.
#[derive(Clone, Copy, Debug, Default, PartialEq, Eq, Structural)]
pub struct TextButton;

/// Marks an entity whose bounding box is tested against the cursor.
#[derive(Clone, Copy, Debug, Default, PartialEq, Eq, Structural)]
pub struct EnableHoverTest;

/// Marks an entity that receives click events while hovered.
#[derive(Clone, Copy, Debug, Default, PartialEq, Eq, Structural)]
pub struct Clickable;

/// Present on an entity while the cursor is inside its bounding box.
#[derive(Clone, Copy, Debug, Default, PartialEq, Eq, Structural)]
pub struct Hovered;

/// The region of an entity that the cursor is tested against.
#[derive(Clone, Copy, Debug, PartialEq, Eq, Structural)]
pub struct GenericBoundingBox {
    pub rect: Rect,
}

impl GenericBoundingBox {
    /// The box a text button starts with.
    pub open spec fn empty_spec() -> GenericBoundingBox {
        GenericBoundingBox {
            rect: Rect { min_x: i64::MAX, min_y: i64::MAX, max_x: i64::MIN, max_y: i64::MIN },
        }
    }

    /// A bounding box that nothing hits, until it is first refreshed.
    pub fn empty() -> (r: GenericBoundingBox)
        ensures
            r == Self::empty_spec(),
            forall|p: Vec2| !r.rect.holds(p),
    {
        GenericBoundingBox {
            rect: Rect { min_x: i64::MAX, min_y: i64::MAX, max_x: i64::MIN, max_y: i64::MIN },
        }
    }
}

/// Whether a button went down or came up.
#[derive(Clone, Copy, Debug, PartialEq, Eq, Hash, Structural)]
pub enum ButtonClickType {
    Pressed,
    Released,
}

/// A pointer button.
#[derive(Clone, Copy, Debug, PartialEq, Eq, Hash, Structural)]
pub enum MouseButton {
    Left,
    Right,
    Middle,
    Back,
    Forward,
    Other(u16),
}

/// An entity in the registry, by its index.
#[derive(Clone, Copy, Debug, PartialEq, Eq, Hash, Structural)]
pub struct Entity {
    pub index: u32,
}

/// One button transition over one hovered, clickable entity.
#[derive(Clone, Copy, Debug, PartialEq, Eq, Structural)]
pub struct ButtonClickEvent {
    pub entity: Entity,
    pub mouse_position: Vec2,
    pub mouse_button: MouseButton,
    pub click_type: ButtonClickType,
}

/// Where a text is pinned to its position, as a fraction of its size.
#[derive(Clone, Copy, Debug, PartialEq, Eq, Structural)]
pub enum Anchor {
    Center,
    BottomLeft,
    BottomCenter,
    BottomRight,
    CenterLeft,
    CenterRight,
    TopLeft,
    TopCenter,
    TopRight,
    /// Any fraction, in thousandths: (-500, -500) is the bottom left corner.
    Custom(Vec2),
}

impl Anchor {
    /// The anchor as a fraction of the size, in thousandths.
    pub open spec fn fraction(self) -> Vec2 {
        match self {
            Anchor::Center => Vec2 { x: 0i32, y: 0i32 },
            Anchor::BottomLeft => Vec2 { x: -500i32, y: -500i32 },
            Anchor::BottomCenter => Vec2 { x: 0i32, y: -500i32 },
            Anchor::BottomRight => Vec2 { x: 500i32, y: -500i32 },
            Anchor::CenterLeft => Vec2 { x: -500i32, y: 0i32 },
            Anchor::CenterRight => Vec2 { x: 500i32, y: 0i32 },
            Anchor::TopLeft => Vec2 { x: -500i32, y: 500i32 },
            Anchor::TopCenter => Vec2 { x: 0i32, y: 500i32 },
            Anchor::TopRight => Vec2 { x: 500i32, y: 500i32 },
            Anchor::Custom(v) => v,
        }
    }

    /// The anchor as a fraction of the size, in thousandths.
    pub fn as_vec(&self) -> (r: Vec2)
        ensures
            r == self.fraction(),
    {
        match self {
            Anchor::Center => Vec2 { x: 0, y: 0 },
            Anchor::BottomLeft => Vec2 { x: -500, y: -500 },
            Anchor::BottomCenter => Vec2 { x: 0, y: -500 },
            Anchor::BottomRight => Vec2 { x: 500, y: -500 },
            Anchor::CenterLeft => Vec2 { x: -500, y: 0 },
            Anchor::CenterRight => Vec2 { x: 500, y: 0 },
            Anchor::TopLeft => Vec2 { x: -500, y: 500 },
            Anchor::TopCenter => Vec2 { x: 0, y: 500 },
            Anchor::TopRight => Vec2 { x: 500, y: 500 },
            Anchor::Custom(v) => *v,
        }
    }
}

/// Low edge of a box along one axis: the anchored position shifted back by
/// the anchor's share of the size, then by half the size.
pub open spec fn box_low(pos: int, size: int, frac: int) -> int {
    pos - size * frac / 1000 - size / 2
}

/// High edge of a box along one axis: the low edge plus the size.
pub open spec fn box_high(pos: int, size: int, frac: int) -> int {
    box_low(pos, size, frac) + size
}

/// The bounding box of a text of `size`, pinned at `translation` by `anchor`.
pub open spec fn text_box(size: Vec2, anchor: Anchor, translation: Vec3) -> Rect {
    let f = anchor.fraction();
    Rect {
        min_x: box_low(translation.x as int, size.x as int, f.x as int) as i64,
        min_y: box_low(translation.y as int, size.y as int, f.y as int) as i64,
        max_x: box_high(translation.x as int, size.x as int, f.x as int) as i64,
        max_y: box_high(translation.y as int, size.y as int, f.y as int) as i64,
    }
}

fn box_edges(pos: i32, size: i32, frac: i32) -> (r: (i64, i64))
    ensures
        r.0 == box_low(pos as int, size as int, frac as int),
        r.1 == box_high(pos as int, size as int, frac as int),
{
    assert(-0x8000_0000 * 0x8000_0000 <= (size as int) * (frac as int) <= 0x8000_0000 * 0x8000_0000)
        by (nonlinear_arith)
        requires -0x8000_0000 <= size <= 0x7fff_ffff, -0x8000_0000 <= frac <= 0x7fff_ffff;
    let offset: i128 = floor_div((size as i128) * (frac as i128), 1000);
    assert(-0x8000_0000 * 0x8000_0000 / 1000 <= offset <= 0x8000_0000 * 0x8000_0000 / 1000) by {
        vstd::arithmetic::div_mod::lemma_div_is_ordered(
            (size as int) * (frac as int), 0x8000_0000int * 0x8000_0000, 1000);
        vstd::arithmetic::div_mod::lemma_div_is_ordered(
            -0x8000_0000int * 0x8000_0000, (size as int) * (frac as int), 1000);
    }
    let half: i128 = floor_div(size as i128, 2);
    let low: i128 = (pos as i128) - offset - half;
    ((low as i64), ((low + (size as i128)) as i64))
}

impl TextButton {
    /// The bounding box of a text of `size`, pinned at `translation` by `anchor`.
    pub fn bounding_box(size: Vec2, anchor: Anchor, translation: Vec3) -> (r: GenericBoundingBox)
        ensures
            r.rect == text_box(size, anchor, translation),
    {
        let f = anchor.as_vec();
        let (min_x, max_x) = box_edges(translation.x, size.x, f.x);
        let (min_y, max_y) = box_edges(translation.y, size.y, f.y);
        GenericBoundingBox { rect: Rect { min_x, min_y, max_x, max_y } }
    }
}

/// What a hover test did to an entity's hover marker.
#[derive(Clone, Copy, Debug, PartialEq, Eq, Structural)]
pub enum HoverTransition {
    /// The cursor entered the box: the marker was attached.
    Added,
    /// The cursor left the box: the marker was detached.
    Removed,
    /// Nothing changed.
    Unchanged,
}

/// The transition from hover state `was` when the cursor is `inside` or not.
pub open spec fn hover_step(was: bool, inside: bool) -> HoverTransition {
    if inside && !was {
        HoverTransition::Added
    } else if !inside && was {
        HoverTransition::Removed
    } else {
        HoverTransition::Unchanged
    }
}

/// The transition from hover state `was` when the cursor is `inside` or not.
/// Afterwards the entity is hovered exactly when the cursor is inside.
pub fn hover_transition(was: bool, inside: bool) -> (r: HoverTransition)
    ensures
        r == hover_step(was, inside),
{
    if inside && !was {
        HoverTransition::Added
    } else if !inside && was {
        HoverTransition::Removed
    } else {
        HoverTransition::Unchanged
    }
}

/// The transitions reported over successive frames whose cursor tests gave
/// `samples`, starting from hover state `was`.
pub open spec fn hover_history(was: bool, samples: Seq<bool>) -> Seq<HoverTransition>
    decreases samples.len(),
{
    if samples.len() == 0 {
        Seq::empty()
    } else {
        seq![hover_step(was, samples[0])].add(hover_history(samples[0], samples.skip(1)))
    }
}

/// The cursor test of the frame before frame `i` (`was` before the first).
pub open spec fn previous_sample(was: bool, samples: Seq<bool>, i: int) -> bool {
    if i == 0 { was } else { samples[i - 1] }
}

/// Over any run of frames, the marker is attached only on a frame where the
/// cursor crosses into the box and detached only where it crosses out, once
/// each per crossing; an entity never inside never receives the marker.
pub proof fn lemma_hover_edges(was: bool, samples: Seq<bool>)
    ensures
        hover_history(was, samples).len() == samples.len(),
        forall|i: int| 0 <= i < samples.len() ==>
            (hover_history(was, samples)[i] == HoverTransition::Added
                <==> samples[i] && !previous_sample(was, samples, i)),
        forall|i: int| 0 <= i < samples.len() ==>
            (hover_history(was, samples)[i] == HoverTransition::Removed
                <==> !samples[i] && previous_sample(was, samples, i)),
        !was && (forall|i: int| 0 <= i < samples.len() ==> !samples[i]) ==>
            forall|i: int| 0 <= i < samples.len() ==>
                hover_history(was, samples)[i] != HoverTransition::Added,
    decreases samples.len(),
{
    if samples.len() > 0 {
        let rest = samples.skip(1);
        lemma_hover_edges(samples[0], rest);
        let h = hover_history(was, samples);
        assert forall|i: int| 0 < i < samples.len() implies
            h[i] == hover_history(samples[0], rest)[i - 1]
            && samples[i] == rest[i - 1]
            && previous_sample(was, samples, i) == previous_sample(samples[0], rest, i - 1) by {}
    }
}

/// The events for one hovered, clickable entity: one `Pressed` event per
/// button in `pressed`, then one `Released` event per button in `released`.
pub open spec fn entity_clicks(
    entity: Entity,
    cursor: Vec2,
    pressed: Seq<MouseButton>,
    released: Seq<MouseButton>,
) -> Seq<ButtonClickEvent> {
    pressed.map_values(|b: MouseButton| ButtonClickEvent {
        entity,
        mouse_position: cursor,
        mouse_button: b,
        click_type: ButtonClickType::Pressed,
    }).add(released.map_values(|b: MouseButton| ButtonClickEvent {
        entity,
        mouse_position: cursor,
        mouse_button: b,
        click_type: ButtonClickType::Released,
    }))
}

/// Appends to `events` the click events of one hovered, clickable entity.
/// A button transitions at most once per frame, so each list names a button once.
pub fn push_entity_clicks(
    events: &mut Vec<ButtonClickEvent>,
    entity: Entity,
    cursor: Vec2,
    pressed: &Vec<MouseButton>,
    released: &Vec<MouseButton>,
)
    requires
        pressed@.no_duplicates(),
        released@.no_duplicates(),
    ensures
        final(events)@ == old(events)@.add(entity_clicks(entity, cursor, pressed@, released@)),
{
    let ghost start = events@;
    let mut i: usize = 0;
    while i < pressed.len()
        invariant
            i <= pressed.len(),
            events@ == start.add(entity_clicks(entity, cursor, pressed@.take(i as int), Seq::empty())),
        decreases pressed.len() - i,
    {
        events.push(ButtonClickEvent {
            entity,
            mouse_position: cursor,
            mouse_button: pressed[i],
            click_type: ButtonClickType::Pressed,
        });
        i = i + 1;
        assert(entity_clicks(entity, cursor, pressed@.take(i as int), Seq::empty())
            =~= entity_clicks(entity, cursor, pressed@.take(i - 1), Seq::empty()).push(events@.last()));
    }
    assert(pressed@.take(i as int) =~= pressed@);
    let mut j: usize = 0;
    while j < released.len()
        invariant
            j <= released.len(),
            events@ == start.add(entity_clicks(entity, cursor, pressed@, released@.take(j as int))),
        decreases released.len() - j,
    {
        events.push(ButtonClickEvent {
            entity,
            mouse_position: cursor,
            mouse_button: released[j],
            click_type: ButtonClickType::Released,
        });
        j = j + 1;
        assert(entity_clicks(entity, cursor, pressed@, released@.take(j as int))
            =~= entity_clicks(entity, cursor, pressed@, released@.take(j - 1)).push(events@.last()));
    }
    assert(released@.take(j as int) =~= released@);
}

} // verus!
