use vstd::prelude::*;
use crate::geometry::{Vec2, Vec3, Rect};
use crate::smoothing::{PositionSmoothing, TargetPosition};
use crate::responsive::ResponsivePosition;
use crate::color::{Color, TargetTextColor, TextColorSmoothing};
use crate::menu::MenuButton;
use crate::buttoning::{
    Anchor, ButtonClickEvent, Entity, GenericBoundingBox, HoverTransition, MouseButton, TextButton,
    entity_clicks, hover_step, hover_transition, push_entity_clicks, text_box, hover_history,
    lemma_hover_edges, previous_sample,
};

verus! {

/// Everything the toolkit knows of one entity. An absent `Option` is an
/// attribute the entity does not carry.
#[derive(Clone, Copy, Debug, PartialEq, Eq, Structural)]
pub struct EntityData {
    /// The actual position.
    pub translation: Vec3,
    pub target: Option<TargetPosition>,
    pub smoothing: Option<PositionSmoothing>,
    pub responsive: Option<ResponsivePosition>,
    /// Whether the entity is a text button.
    pub text_button: bool,
    /// Size of the rendered text.
    pub text_size: Vec2,
    pub anchor: Anchor,
    pub bounding_box: Option<GenericBoundingBox>,
    /// Whether the bounding box is tested against the cursor.
    pub hover_test: bool,
    pub clickable: bool,
    pub hovered: bool,
    /// The displayed text colour.
    pub text_color: Color,
    pub target_color: Option<TargetTextColor>,
    pub color_smoothing: Option<TextColorSmoothing>,
    /// The colour the text returns to when nothing highlights it.
    pub default_color: Option<Color>,
    /// Whether a script has taken over the entity from the menu's reactions.
    pub script_controlled: bool,
    /// The menu action this entity triggers.
    pub menu_button: Option<MenuButton>,
}

impl EntityData {
    /// An entity at `translation` with no other attribute: white text,
    /// centred, of no size.
    pub fn new(translation: Vec3) -> (r: EntityData)
        ensures
            r.translation == translation,
            r.target is None,
            r.smoothing is None,
            r.responsive is None,
            !r.text_button,
            r.text_size == (Vec2 { x: 0, y: 0 }),
            r.anchor == Anchor::Center,
            r.bounding_box is None,
            !r.hover_test,
            !r.clickable,
            !r.hovered,
            r.text_color == (Color { red: 1000, green: 1000, blue: 1000, alpha: 1000 }),
            r.target_color is None,
            r.color_smoothing is None,
            r.default_color is None,
            !r.script_controlled,
            r.menu_button is None,
    {
        EntityData {
            translation,
            target: None,
            smoothing: None,
            responsive: None,
            text_button: false,
            text_size: Vec2 { x: 0, y: 0 },
            anchor: Anchor::Center,
            bounding_box: None,
            hover_test: false,
            clickable: false,
            hovered: false,
            text_color: Color { red: 1000, green: 1000, blue: 1000, alpha: 1000 },
            target_color: None,
            color_smoothing: None,
            default_color: None,
            script_controlled: false,
            menu_button: None,
        }
    }
}

/// The entity registry: entity `i` is stored at index `i`.
pub struct World {
    pub entities: Vec<EntityData>,
}

/// Target resolution for one entity: with a smoothing target the resolved
/// layout goes into the target, otherwise into the actual position.
pub open spec fn resolve_one(e: EntityData, area: Rect) -> EntityData {
    match e.responsive {
        Some(r) => match e.target {
            Some(_) => EntityData { target: Some(TargetPosition(r.position.resolved(area))), ..e },
            None => EntityData { translation: r.position.resolved(area), ..e },
        },
        None => e,
    }
}

/// One smoothing step of `dt` microseconds for one entity.
pub open spec fn smooth_one(e: EntityData, dt: int) -> EntityData {
    match (e.smoothing, e.target) {
        (Some(s), Some(t)) => EntityData { translation: s.next_position(e.translation, t.0, dt), ..e },
        _ => e,
    }
}

/// First sight of a text button: it gets an empty box, hover testing and
/// clickability.
pub open spec fn setup_one(e: EntityData, empty: GenericBoundingBox) -> EntityData {
    if e.text_button && e.bounding_box is None {
        EntityData { hover_test: true, bounding_box: Some(empty), clickable: true, ..e }
    } else {
        e
    }
}

/// The bounding box of a text button, refreshed from its text and position.
pub open spec fn refresh_one(e: EntityData) -> EntityData {
    if e.text_button && e.bounding_box is Some {
        EntityData {
            bounding_box: Some(GenericBoundingBox { rect: text_box(e.text_size, e.anchor, e.translation) }),
            ..e
        }
    } else {
        e
    }
}

/// Whether an entity takes part in hover testing.
pub open spec fn tested(e: EntityData) -> bool {
    e.hover_test && e.bounding_box is Some
}

/// Hover testing of one entity against `cursor`.
pub open spec fn hover_one(e: EntityData, cursor: Vec2) -> EntityData {
    if tested(e) {
        EntityData { hovered: e.bounding_box.unwrap().rect.holds(cursor), ..e }
    } else {
        e
    }
}

/// The hover transition of one entity against `cursor`.
pub open spec fn hover_change(e: EntityData, cursor: Vec2) -> HoverTransition {
    if tested(e) {
        hover_step(e.hovered, e.bounding_box.unwrap().rect.holds(cursor))
    } else {
        HoverTransition::Unchanged
    }
}

/// One colour smoothing step of `dt` microseconds for one entity.
pub open spec fn color_one(e: EntityData, dt: int) -> EntityData {
    match (e.color_smoothing, e.target_color) {
        (Some(s), Some(t)) => EntityData { text_color: s.next_color(e.text_color, t.0, dt), ..e },
        _ => e,
    }
}

/// The click events of the first `n` entities, in entity order.
pub open spec fn clicks_upto(
    ents: Seq<EntityData>,
    n: int,
    cursor: Vec2,
    pressed: Seq<MouseButton>,
    released: Seq<MouseButton>,
) -> Seq<ButtonClickEvent>
    decreases n,
{
    if n <= 0 {
        Seq::empty()
    } else {
        let before = clicks_upto(ents, n - 1, cursor, pressed, released);
        let e = ents[n - 1];
        if e.hovered && e.clickable {
            before.add(entity_clicks(Entity { index: (n - 1) as u32 }, cursor, pressed, released))
        } else {
            before
        }
    }
}

/// The transitions `update_hoverers` reports for one entity over successive
/// frames with a cursor, `cursors[k]` in the `k`-th, its box unchanged.
/// Frames without a cursor test nothing and change nothing, so they are left out.
pub open spec fn hover_run(e: EntityData, cursors: Seq<Vec2>) -> Seq<HoverTransition>
    decreases cursors.len(),
{
    if cursors.len() == 0 {
        Seq::empty()
    } else {
        seq![hover_change(e, cursors[0])].add(hover_run(hover_one(e, cursors[0]), cursors.skip(1)))
    }
}

/// Whether each cursor lies in the entity's box.
pub open spec fn inside_samples(e: EntityData, cursors: Seq<Vec2>) -> Seq<bool> {
    Seq::new(cursors.len(), |k: int| e.bounding_box.unwrap().rect.holds(cursors[k]))
}

proof fn lemma_hover_run_is_history(e: EntityData, cursors: Seq<Vec2>)
    requires
        tested(e),
    ensures
        hover_run(e, cursors) == hover_history(e.hovered, inside_samples(e, cursors)),
    decreases cursors.len(),
{
    if cursors.len() > 0 {
        let next = hover_one(e, cursors[0]);
        lemma_hover_run_is_history(next, cursors.skip(1));
        let samples = inside_samples(e, cursors);
        assert(inside_samples(next, cursors.skip(1)) =~= samples.skip(1));
    }
}

/// Over successive hover tests of an entity whose box stays put, the hover
/// marker is attached only in a frame where the cursor has crossed into the
/// box and detached only where it has crossed out, once per crossing; an
/// entity that starts unhovered and whose box never holds the cursor never
/// receives the marker.
pub proof fn lemma_hover_over_frames(e: EntityData, cursors: Seq<Vec2>)
    requires
        tested(e),
    ensures
        hover_run(e, cursors).len() == cursors.len(),
        forall|k: int| 0 <= k < cursors.len() ==>
            (hover_run(e, cursors)[k] == HoverTransition::Added
                <==> inside_samples(e, cursors)[k] && !previous_sample(e.hovered, inside_samples(e, cursors), k)),
        forall|k: int| 0 <= k < cursors.len() ==>
            (hover_run(e, cursors)[k] == HoverTransition::Removed
                <==> !inside_samples(e, cursors)[k] && previous_sample(e.hovered, inside_samples(e, cursors), k)),
        !e.hovered && (forall|k: int| 0 <= k < cursors.len() ==> !e.bounding_box.unwrap().rect.holds(cursors[k]))
            ==> forall|k: int| 0 <= k < cursors.len() ==> hover_run(e, cursors)[k] != HoverTransition::Added,
{
    let samples = inside_samples(e, cursors);
    lemma_hover_run_is_history(e, cursors);
    lemma_hover_edges(e.hovered, samples);
    assert forall|k: int| 0 <= k < cursors.len() implies
        (hover_run(e, cursors)[k] == HoverTransition::Removed
            <==> !samples[k] && previous_sample(e.hovered, samples, k)) by {
        assert(hover_history(e.hovered, samples)[k] == HoverTransition::Removed
            <==> !samples[k] && previous_sample(e.hovered, samples, k));
    }
    assert forall|k: int| 0 <= k < cursors.len() implies
        (hover_run(e, cursors)[k] == HoverTransition::Added
            <==> samples[k] && !previous_sample(e.hovered, samples, k)) by {
        assert(hover_history(e.hovered, samples)[k] == HoverTransition::Added
            <==> samples[k] && !previous_sample(e.hovered, samples, k));
    }
}

impl World {
    pub open spec fn view(&self) -> Seq<EntityData> {
        self.entities@
    }

    /// An empty registry.
    pub fn new() -> (r: World)
        ensures
            r.view() == Seq::<EntityData>::empty(),
    {
        World { entities: Vec::new() }
    }

    /// Adds an entity and returns its handle.
    pub fn spawn(&mut self, data: EntityData) -> (r: Entity)
        requires
            old(self).view().len() < u32::MAX,
        ensures
            final(self).view() == old(self).view().push(data),
            r.index == old(self).view().len(),
    {
        let index = self.entities.len() as u32;
        self.entities.push(data);
        Entity { index }
    }

    /// The data of `entity`, if it exists.
    pub fn get(&self, entity: Entity) -> (r: Option<EntityData>)
        ensures
            r == (if entity.index < self.view().len() { Some(self.view()[entity.index as int]) } else { None }),
    {
        if (entity.index as usize) < self.entities.len() {
            Some(self.entities[entity.index as usize])
        } else {
            None
        }
    }

    /// Writes new target positions or positions from the layouts, against
    /// the viewport `area`; does nothing without a viewport.
    pub fn resolve_targets(&mut self, area: Option<Rect>)
        ensures
            final(self).view().len() == old(self).view().len(),
            forall|i: int| 0 <= i < old(self).view().len() ==> final(self).view()[i] == match area {
                Some(a) => resolve_one(old(self).view()[i], a),
                None => old(self).view()[i],
            },
    {
        let a = match area {
            Some(a) => a,
            None => return,
        };
        let ghost start = self.view();
        let mut i: usize = 0;
        while i < self.entities.len()
            invariant
                i <= self.entities@.len() == start.len(),
                forall|j: int| 0 <= j < i ==> self.entities@[j] == resolve_one(start[j], a),
                forall|j: int| i <= j < start.len() ==> self.entities@[j] == start[j],
            decreases start.len() - i,
        {
            let mut e = self.entities[i];
            if let Some(r) = e.responsive {
                let p = r.position.resolve(a);
                if e.target.is_some() {
                    e.target = Some(TargetPosition(p));
                } else {
                    e.translation = p;
                }
            }
            self.entities.set(i, e);
            i = i + 1;
        }
    }

    /// Advances every smoothed position toward its target for `delta_time`
    /// microseconds.
    pub fn update_smoothed(&mut self, delta_time: u32)
        ensures
            final(self).view().len() == old(self).view().len(),
            forall|i: int| 0 <= i < old(self).view().len() ==>
                final(self).view()[i] == smooth_one(old(self).view()[i], delta_time as int),
    {
        let ghost start = self.view();
        let mut i: usize = 0;
        while i < self.entities.len()
            invariant
                i <= self.entities@.len() == start.len(),
                forall|j: int| 0 <= j < i ==> self.entities@[j] == smooth_one(start[j], delta_time as int),
                forall|j: int| i <= j < start.len() ==> self.entities@[j] == start[j],
            decreases start.len() - i,
        {
            let mut e = self.entities[i];
            match (e.smoothing, e.target) {
                (Some(s), Some(t)) => {
                    e.translation = s.smooth_position(e.translation, t.0, delta_time);
                },
                _ => {},
            }
            self.entities.set(i, e);
            i = i + 1;
        }
    }

    /// Equips each text button seen for the first time with an empty
    /// bounding box, hover testing and clickability.
    pub fn setup_bounding_boxes(&mut self)
        ensures
            final(self).view().len() == old(self).view().len(),
            forall|p: Vec2| !GenericBoundingBox::empty_spec().rect.holds(p),
            forall|i: int| 0 <= i < old(self).view().len() ==>
                final(self).view()[i] == setup_one(old(self).view()[i], GenericBoundingBox::empty_spec()),
    {
        let ghost start = self.view();
        let empty = GenericBoundingBox::empty();
        let mut i: usize = 0;
        while i < self.entities.len()
            invariant
                empty == GenericBoundingBox::empty_spec(),
                i <= self.entities@.len() == start.len(),
                forall|j: int| 0 <= j < i ==> self.entities@[j] == setup_one(start[j], empty),
                forall|j: int| i <= j < start.len() ==> self.entities@[j] == start[j],
            decreases start.len() - i,
        {
            let mut e = self.entities[i];
            if e.text_button && e.bounding_box.is_none() {
                e.hover_test = true;
                e.bounding_box = Some(empty);
                e.clickable = true;
            }
            self.entities.set(i, e);
            i = i + 1;
        }
    }

    /// Recomputes the bounding box of every text button from its text size,
    /// anchor and current position.
    pub fn update_bounding_boxes(&mut self)
        ensures
            final(self).view().len() == old(self).view().len(),
            forall|i: int| 0 <= i < old(self).view().len() ==>
                final(self).view()[i] == refresh_one(old(self).view()[i]),
    {
        let ghost start = self.view();
        let mut i: usize = 0;
        while i < self.entities.len()
            invariant
                i <= self.entities@.len() == start.len(),
                forall|j: int| 0 <= j < i ==> self.entities@[j] == refresh_one(start[j]),
                forall|j: int| i <= j < start.len() ==> self.entities@[j] == start[j],
            decreases start.len() - i,
        {
            let mut e = self.entities[i];
            if e.text_button && e.bounding_box.is_some() {
                e.bounding_box = Some(TextButton::bounding_box(e.text_size, e.anchor, e.translation));
            }
            self.entities.set(i, e);
            i = i + 1;
        }
    }

    /// Tests every hover-tested entity against the cursor, already projected
    /// into world space, and returns each entity's transition. Without a
    /// cursor nothing is tested and nothing is returned.
    pub fn update_hoverers(&mut self, cursor: Option<Vec2>) -> (r: Vec<HoverTransition>)
        ensures
            final(self).view().len() == old(self).view().len(),
            cursor is None ==> final(self).view() == old(self).view() && r@.len() == 0,
            cursor is Some ==> r@.len() == old(self).view().len(),
            cursor is Some ==> forall|i: int| 0 <= i < old(self).view().len() ==>
                final(self).view()[i] == hover_one(old(self).view()[i], cursor.unwrap()),
            cursor is Some ==> forall|i: int| 0 <= i < old(self).view().len() ==>
                r@[i] == hover_change(old(self).view()[i], cursor.unwrap()),
    {
        let mut changes: Vec<HoverTransition> = Vec::new();
        let c = match cursor {
            Some(c) => c,
            None => return changes,
        };
        let ghost start = self.view();
        let mut i: usize = 0;
        while i < self.entities.len()
            invariant
                i <= self.entities@.len() == start.len(),
                changes@.len() == i,
                forall|j: int| 0 <= j < i ==> self.entities@[j] == hover_one(start[j], c),
                forall|j: int| 0 <= j < i ==> changes@[j] == hover_change(start[j], c),
                forall|j: int| i <= j < start.len() ==> self.entities@[j] == start[j],
            decreases start.len() - i,
        {
            let mut e = self.entities[i];
            let change = match e.bounding_box {
                Some(b) if e.hover_test => {
                    let inside = b.rect.contains(c);
                    let t = hover_transition(e.hovered, inside);
                    e.hovered = inside;
                    t
                },
                _ => HoverTransition::Unchanged,
            };
            changes.push(change);
            self.entities.set(i, e);
            i = i + 1;
        }
        changes
    }

    /// The click events of this frame: for each entity that is hovered and
    /// clickable, in entity order, one `Pressed` event per button in
    /// `pressed` and one `Released` event per button in `released`; each list
    /// names a button at most once. Without a cursor there are none.
    pub fn update_clicks(
        &self,
        cursor: Option<Vec2>,
        pressed: &Vec<MouseButton>,
        released: &Vec<MouseButton>,
    ) -> (r: Vec<ButtonClickEvent>)
        requires
            self.view().len() <= u32::MAX,
            pressed@.no_duplicates(),
            released@.no_duplicates(),
        ensures
            cursor is None ==> r@.len() == 0,
            cursor is Some ==> r@ == clicks_upto(self.view(), self.view().len() as int, cursor.unwrap(), pressed@, released@),
    {
        let mut events: Vec<ButtonClickEvent> = Vec::new();
        let c = match cursor {
            Some(c) => c,
            None => return events,
        };
        let mut i: usize = 0;
        while i < self.entities.len()
            invariant
                i <= self.entities@.len() <= u32::MAX,
                pressed@.no_duplicates(),
                released@.no_duplicates(),
                events@ == clicks_upto(self.view(), i as int, c, pressed@, released@),
            decreases self.entities@.len() - i,
        {
            let e = self.entities[i];
            if e.hovered && e.clickable {
                push_entity_clicks(&mut events, Entity { index: i as u32 }, c, pressed, released);
            }
            i = i + 1;
        }
        events
    }

    /// Eases every smoothed text colour toward its target for `delta_time`
    /// microseconds.
    pub fn update_text_colors(&mut self, delta_time: u32)
        ensures
            final(self).view().len() == old(self).view().len(),
            forall|i: int| 0 <= i < old(self).view().len() ==>
                final(self).view()[i] == color_one(old(self).view()[i], delta_time as int),
    {
        let ghost start = self.view();
        let mut i: usize = 0;
        while i < self.entities.len()
            invariant
                i <= self.entities@.len() == start.len(),
                forall|j: int| 0 <= j < i ==> self.entities@[j] == color_one(start[j], delta_time as int),
                forall|j: int| i <= j < start.len() ==> self.entities@[j] == start[j],
            decreases start.len() - i,
        {
            let mut e = self.entities[i];
            match (e.color_smoothing, e.target_color) {
                (Some(s), Some(t)) => {
                    e.text_color = s.smooth_color(e.text_color, t.0, delta_time);
                },
                _ => {},
            }
            self.entities.set(i, e);
            i = i + 1;
        }
    }
}

} // verus!
