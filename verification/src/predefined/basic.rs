//! A widget that is any one of the predefined leaf components.
//!
//! Children of one layout all share one Rust type; this sum type lets a
//! row or column mix buttons, texts and inputs.

use vstd::prelude::*;

use crate::component::{RawComponent, DIM_CAP};
use crate::predefined::button::{ButtonComponent, PressedEvent};
use crate::predefined::input::{InputComponent, InputModel};
use crate::predefined::text::{TextComponent, TextModel};
use crate::shape::{Shape, ShapeModel, Vec2};

verus! {

/// Any one of the predefined leaf components.
pub enum BasicComponent {
    /// A clickable button.
    Button(ButtonComponent),
    /// A line of text.
    Text(TextComponent),
    /// An editable line of text.
    Input(InputComponent),
}

/// The mathematical model of a [`BasicComponent`].
pub enum BasicModel {
    /// Model of a button.
    Button(ButtonComponent),
    /// Model of a text.
    Text(TextModel),
    /// Model of an input.
    Input(InputModel),
}

impl RawComponent<PressedEvent> for BasicComponent {
    /// The model of whichever component this is.
    type Model = BasicModel;

    open spec fn model(&self) -> BasicModel {
        match self {
            BasicComponent::Button(b) => BasicModel::Button(
                <ButtonComponent as RawComponent<PressedEvent>>::model(b),
            ),
            BasicComponent::Text(t) => BasicModel::Text(
                <TextComponent as RawComponent<PressedEvent>>::model(t),
            ),
            BasicComponent::Input(i) => BasicModel::Input(
                <InputComponent as RawComponent<PressedEvent>>::model(i),
            ),
        }
    }

    /// Every predefined component stays within [`DIM_CAP`].
    open spec fn coord_cap() -> int {
        DIM_CAP as int
    }

    open spec fn wf(m: BasicModel) -> bool {
        match m {
            BasicModel::Button(b) => <ButtonComponent as RawComponent<PressedEvent>>::wf(b),
            BasicModel::Text(t) => <TextComponent as RawComponent<PressedEvent>>::wf(t),
            BasicModel::Input(i) => <InputComponent as RawComponent<PressedEvent>>::wf(i),
        }
    }

    open spec fn width_spec(m: BasicModel) -> int {
        match m {
            BasicModel::Button(b) => <ButtonComponent as RawComponent<
                PressedEvent,
            >>::width_spec(b),
            BasicModel::Text(t) => <TextComponent as RawComponent<PressedEvent>>::width_spec(t),
            BasicModel::Input(i) => <InputComponent as RawComponent<PressedEvent>>::width_spec(
                i,
            ),
        }
    }

    open spec fn height_spec(m: BasicModel) -> int {
        match m {
            BasicModel::Button(b) => <ButtonComponent as RawComponent<
                PressedEvent,
            >>::height_spec(b),
            BasicModel::Text(t) => <TextComponent as RawComponent<PressedEvent>>::height_spec(
                t,
            ),
            BasicModel::Input(i) => <InputComponent as RawComponent<
                PressedEvent,
            >>::height_spec(i),
        }
    }

    open spec fn shapes_spec(m: BasicModel) -> Seq<ShapeModel> {
        match m {
            BasicModel::Button(b) => <ButtonComponent as RawComponent<
                PressedEvent,
            >>::shapes_spec(b),
            BasicModel::Text(t) => <TextComponent as RawComponent<PressedEvent>>::shapes_spec(
                t,
            ),
            BasicModel::Input(i) => <InputComponent as RawComponent<
                PressedEvent,
            >>::shapes_spec(i),
        }
    }

    open spec fn hit_spec(m: BasicModel, position: Vec2) -> bool {
        match m {
            BasicModel::Button(b) => <ButtonComponent as RawComponent<PressedEvent>>::hit_spec(
                b,
                position,
            ),
            BasicModel::Text(t) => <TextComponent as RawComponent<PressedEvent>>::hit_spec(
                t,
                position,
            ),
            BasicModel::Input(i) => <InputComponent as RawComponent<PressedEvent>>::hit_spec(
                i,
                position,
            ),
        }
    }

    open spec fn mouse_spec(m: BasicModel, position: Option<Vec2>, pressed: bool) -> (
        BasicModel,
        Seq<PressedEvent>,
    ) {
        match m {
            BasicModel::Button(b) => {
                let r = <ButtonComponent as RawComponent<PressedEvent>>::mouse_spec(
                    b,
                    position,
                    pressed,
                );
                (BasicModel::Button(r.0), r.1)
            },
            BasicModel::Text(t) => {
                let r = <TextComponent as RawComponent<PressedEvent>>::mouse_spec(
                    t,
                    position,
                    pressed,
                );
                (BasicModel::Text(r.0), r.1)
            },
            BasicModel::Input(i) => {
                let r = <InputComponent as RawComponent<PressedEvent>>::mouse_spec(
                    i,
                    position,
                    pressed,
                );
                (BasicModel::Input(r.0), r.1)
            },
        }
    }

    proof fn lemma_wf_bounds(m: BasicModel) {
        match m {
            BasicModel::Button(b) => {
                <ButtonComponent as RawComponent<PressedEvent>>::lemma_wf_bounds(b);
            },
            BasicModel::Text(t) => {
                <TextComponent as RawComponent<PressedEvent>>::lemma_wf_bounds(t);
            },
            BasicModel::Input(i) => {
                <InputComponent as RawComponent<PressedEvent>>::lemma_wf_bounds(i);
            },
        }
    }

    proof fn lemma_mouse_preserves_wf(m: BasicModel, position: Option<Vec2>, pressed: bool) {
        match m {
            BasicModel::Button(b) => {
                <ButtonComponent as RawComponent<PressedEvent>>::lemma_mouse_preserves_wf(
                    b,
                    position,
                    pressed,
                );
            },
            BasicModel::Text(t) => {
                <TextComponent as RawComponent<PressedEvent>>::lemma_mouse_preserves_wf(
                    t,
                    position,
                    pressed,
                );
            },
            BasicModel::Input(i) => {
                <InputComponent as RawComponent<PressedEvent>>::lemma_mouse_preserves_wf(
                    i,
                    position,
                    pressed,
                );
            },
        }
    }

    fn render(&self) -> (r: Vec<Shape>) {
        match self {
            BasicComponent::Button(b) => b.render(),
            BasicComponent::Text(t) => <TextComponent as RawComponent<PressedEvent>>::render(t),
            BasicComponent::Input(i) => <InputComponent as RawComponent<PressedEvent>>::render(
                i,
            ),
        }
    }

    fn set_mouse_status(&mut self, position: Option<Vec2>, pressed: bool) -> (r: Vec<
        PressedEvent,
    >) {
        match self {
            BasicComponent::Button(b) => b.set_mouse_status(position, pressed),
            BasicComponent::Text(t) => <TextComponent as RawComponent<
                PressedEvent,
            >>::set_mouse_status(t, position, pressed),
            BasicComponent::Input(i) => <InputComponent as RawComponent<
                PressedEvent,
            >>::set_mouse_status(i, position, pressed),
        }
    }

    fn hit_test(&self, position: Vec2) -> (r: bool) {
        match self {
            BasicComponent::Button(b) => b.hit_test(position),
            BasicComponent::Text(t) => <TextComponent as RawComponent<PressedEvent>>::hit_test(
                t,
                position,
            ),
            BasicComponent::Input(i) => <InputComponent as RawComponent<
                PressedEvent,
            >>::hit_test(i, position),
        }
    }

    fn get_width(&self) -> (r: i64) {
        match self {
            BasicComponent::Button(b) => b.get_width(),
            BasicComponent::Text(t) => <TextComponent as RawComponent<
                PressedEvent,
            >>::get_width(t),
            BasicComponent::Input(i) => <InputComponent as RawComponent<
                PressedEvent,
            >>::get_width(i),
        }
    }

    fn get_height(&self) -> (r: i64) {
        match self {
            BasicComponent::Button(b) => b.get_height(),
            BasicComponent::Text(t) => <TextComponent as RawComponent<
                PressedEvent,
            >>::get_height(t),
            BasicComponent::Input(i) => <InputComponent as RawComponent<
                PressedEvent,
            >>::get_height(i),
        }
    }
}

} // verus!
