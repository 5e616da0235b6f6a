//! A clickable button.

use vstd::prelude::*;
use vstd::string::StringExecFns;

use crate::component::{RawComponent, DIM_CAP};
use crate::shape::{Color, Font, Shape, ShapeModel, Vec2};
use crate::predefined::text::TextComponent;

verus! {

broadcast use vstd::string::group_string_axioms;

/// Side of the square a button occupies: a tenth of a logical unit, in
/// coordinate subunits.
pub const BUTTON_SIZE: i64 = 100_000;

/// Em size of a button's label: a tenth of a logical unit, in coordinate
/// subunits.
pub const BUTTON_LABEL_EM: i64 = 100_000;

/// The event a button reports to its parent when it has been clicked:
/// pressed and then released while the pointer stayed over the button.
#[derive(Debug, Clone, PartialEq, Eq, Structural)]
pub struct PressedEvent;

/// A fixed-size square button that reports a [`PressedEvent`] when
/// clicked.
pub struct ButtonComponent {
    /// Color of the button's face.
    pub color: Color,
    /// The label drawn over the button.
    pub label: TextComponent,
    /// Whether the pointer is currently over the button.
    pub hovered: bool,
    /// Whether a release over the button may count as a click: set once
    /// the pointer has been seen over the button with its own button up,
    /// cleared when the pointer leaves.
    pub can_be_pressed: bool,
    /// The pressed flag of the previous pointer update.
    pub previous_pressed_status: bool,
}

impl ButtonComponent {
    /// The button's face, darkened to four fifths of each channel while
    /// the button is hovered.
    pub open spec fn face_color_spec(&self) -> Color {
        if self.hovered {
            Color {
                r: (self.color.r * 4 / 5) as u16,
                g: (self.color.g * 4 / 5) as u16,
                b: (self.color.b * 4 / 5) as u16,
            }
        } else {
            self.color
        }
    }

    /// Whether one pointer update makes the button report a click: the
    /// pointer is over the button, a release is seen, and an earlier
    /// update armed the button.
    pub open spec fn emits_spec(&self, position: Option<Vec2>, pressed: bool) -> bool {
        &&& position is Some
        &&& self.can_be_pressed
        &&& self.previous_pressed_status
        &&& !pressed
    }

    /// The button's state after one pointer update.
    pub open spec fn step_spec(&self, position: Option<Vec2>, pressed: bool) -> ButtonComponent {
        ButtonComponent {
            hovered: position is Some,
            can_be_pressed: if position is None {
                false
            } else if !pressed {
                true
            } else {
                self.can_be_pressed
            },
            previous_pressed_status: pressed,
            ..*self
        }
    }

    /// Changes the color of the button's face.
    pub fn set_color(&mut self, color: Color)
        ensures
            *final(self) == (ButtonComponent { color, ..*old(self) }),
    {
        self.color = color;
    }
}

impl Default for ButtonComponent {
    /// A yellow button labelled "Button", not hovered and not armed.
    fn default() -> (r: ButtonComponent)
        ensures
            r.color == (Color { r: u16::MAX, g: u16::MAX, b: 0 }),
            r.label.text_spec() == "Button"@,
            r.label.font_spec() == Font::Button,
            r.label.em_spec() == BUTTON_LABEL_EM as int,
            !r.hovered,
            !r.can_be_pressed,
            !r.previous_pressed_status,
    {
        proof {
            reveal_strlit("Button");
        }
        ButtonComponent {
            color: Color { r: u16::MAX, g: u16::MAX, b: 0 },
            label: TextComponent::new(String::from_str("Button"), Font::Button, BUTTON_LABEL_EM),
            hovered: false,
            can_be_pressed: false,
            previous_pressed_status: false,
        }
    }
}

/// Law: a button's render output and its hit test agree.  The button
/// draws exactly one rectangle, and a position passes the hit test if
/// and only if it lies inside that rectangle, half-open on its upper
/// edges.
pub proof fn lemma_button_render_hit_agreement(m: ButtonComponent, p: Vec2)
    ensures
        <ButtonComponent as RawComponent<PressedEvent>>::shapes_spec(m).len() == 1,
        <ButtonComponent as RawComponent<PressedEvent>>::shapes_spec(m)[0] matches ShapeModel::Rectangle {
            from,
            to,
            ..
        } && (<ButtonComponent as RawComponent<PressedEvent>>::hit_spec(m, p) <==> (from.x <= p.x
            < to.x && from.y <= p.y < to.y)),
{
}

impl RawComponent<PressedEvent> for ButtonComponent {
    /// A button is its own model.
    type Model = ButtonComponent;

    open spec fn model(&self) -> ButtonComponent {
        *self
    }

    /// Buttons stay within [`DIM_CAP`] of their origin.
    open spec fn coord_cap() -> int {
        DIM_CAP as int
    }

    /// A button's geometry is fixed, so any state is well-formed.
    open spec fn wf(m: ButtonComponent) -> bool {
        true
    }

    open spec fn width_spec(m: ButtonComponent) -> int {
        BUTTON_SIZE as int
    }

    open spec fn height_spec(m: ButtonComponent) -> int {
        BUTTON_SIZE as int
    }

    /// A single square, darkened while hovered.
    open spec fn shapes_spec(m: ButtonComponent) -> Seq<ShapeModel> {
        seq![
            ShapeModel::Rectangle {
                from: Vec2 { x: 0, y: 0 },
                to: Vec2 { x: BUTTON_SIZE, y: BUTTON_SIZE },
                color: m.face_color_spec(),
            },
        ]
    }

    /// The interactive area is the button's square, half-open on its
    /// upper edges.
    open spec fn hit_spec(m: ButtonComponent, position: Vec2) -> bool {
        &&& 0 <= position.x < BUTTON_SIZE
        &&& 0 <= position.y < BUTTON_SIZE
    }

    /// One pointer update: the hover flag tracks the pointer, a release
    /// over an armed button reports a click, leaving disarms, and a
    /// hovered release arms.
    open spec fn mouse_spec(m: ButtonComponent, position: Option<Vec2>, pressed: bool) -> (
        ButtonComponent,
        Seq<PressedEvent>,
    ) {
        (
            m.step_spec(position, pressed),
            if m.emits_spec(position, pressed) {
                seq![PressedEvent]
            } else {
                Seq::empty()
            },
        )
    }

    proof fn lemma_wf_bounds(m: ButtonComponent) {
    }

    proof fn lemma_mouse_preserves_wf(m: ButtonComponent, position: Option<Vec2>, pressed: bool) {
    }

    fn render(&self) -> (r: Vec<Shape>) {
        let color: Color = if self.hovered {
            Color {
                r: (self.color.r as u32 * 4 / 5) as u16,
                g: (self.color.g as u32 * 4 / 5) as u16,
                b: (self.color.b as u32 * 4 / 5) as u16,
            }
        } else {
            self.color
        };
        let mut shapes: Vec<Shape> = Vec::new();
        shapes.push(
            Shape::Rectangle {
                from: Vec2 { x: 0, y: 0 },
                to: Vec2 { x: BUTTON_SIZE, y: BUTTON_SIZE },
                color,
            },
        );
        proof {
            assert(shapes.deep_view() =~= <ButtonComponent as RawComponent<
                PressedEvent,
            >>::shapes_spec(*self));
        }
        shapes
    }

    fn set_mouse_status(&mut self, position: Option<Vec2>, pressed: bool) -> (r: Vec<
        PressedEvent,
    >) {
        let mut ret: Vec<PressedEvent> = Vec::new();
        self.hovered = position.is_some();
        if position.is_some() && self.can_be_pressed && self.previous_pressed_status && !pressed {
            ret.push(PressedEvent);
        }
        if position.is_none() {
            self.can_be_pressed = false;
        }
        if position.is_some() && !pressed {
            self.can_be_pressed = true;
        }
        self.previous_pressed_status = pressed;
        proof {
            if old(self).emits_spec(position, pressed) {
                assert(ret@ =~= seq![PressedEvent]);
            } else {
                assert(ret@ =~= Seq::<PressedEvent>::empty());
            }
        }
        ret
    }

    fn hit_test(&self, position: Vec2) -> (r: bool) {
        position.x >= 0 && position.x < BUTTON_SIZE && position.y >= 0 && position.y
            < BUTTON_SIZE
    }

    fn get_width(&self) -> (r: i64) {
        BUTTON_SIZE
    }

    fn get_height(&self) -> (r: i64) {
        BUTTON_SIZE
    }
}

} // verus!
