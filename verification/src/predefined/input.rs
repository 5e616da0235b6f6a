//! A component that displays an editable line of text.
//!
//! Only the displayed state lives in the core: reacting to key presses is
//! the event loop's business.

use vstd::prelude::*;
use vstd::string::StrSliceExecFns;

use crate::component::{RawComponent, DIM_CAP};
use crate::shape::{Font, Shape, ShapeModel, Vec2};

verus! {

/// A component that displays a single editable line of text and emits no
/// event.
pub struct InputComponent {
    /// The text currently held by the input.
    pub text: String,
    /// The font to use.
    pub font: Font,
    /// The size of one em, in coordinate subunits.
    pub em: i64,
}

impl InputComponent {
    /// The state keeps its geometry within [`DIM_CAP`].
    pub open spec fn wf_spec(&self) -> bool {
        &&& 0 <= self.em <= DIM_CAP
        &&& self.em * self.text@.len() <= DIM_CAP
    }

    /// Builds an input from its text, its font and its em size.
    pub fn new(text: String, font: Font, em: i64) -> (r: InputComponent)
        requires
            0 <= em <= DIM_CAP,
            em * text@.len() <= DIM_CAP,
        ensures
            r == (InputComponent { text, font, em }),
            r.wf_spec(),
    {
        InputComponent { text, font, em }
    }

    /// Replaces the held text.
    pub fn set_text(&mut self, text: String)
        requires
            old(self).em * text@.len() <= DIM_CAP,
        ensures
            *final(self) == (InputComponent { text, ..*old(self) }),
            old(self).wf_spec() ==> final(self).wf_spec(),
    {
        self.text = text;
    }

    /// Returns the held text.
    pub fn get_text(&self) -> (r: &str)
        ensures
            r@ == self.text@,
    {
        self.text.as_str()
    }

    /// Replaces the font.
    pub fn set_font(&mut self, font: Font)
        ensures
            *final(self) == (InputComponent { font, ..*old(self) }),
            old(self).wf_spec() ==> final(self).wf_spec(),
    {
        self.font = font;
    }

    /// Replaces the em size.
    pub fn set_em(&mut self, em: i64)
        requires
            0 <= em <= DIM_CAP,
            em * old(self).text@.len() <= DIM_CAP,
        ensures
            *final(self) == (InputComponent { em, ..*old(self) }),
            final(self).wf_spec(),
    {
        self.em = em;
    }
}

/// The mathematical model of an [`InputComponent`]: its text as a
/// sequence of characters, its font and its em size.
pub struct InputModel {
    /// The characters held.
    pub text: Seq<char>,
    /// The font in use.
    pub font: Font,
    /// The size of one em, in coordinate subunits.
    pub em: i64,
}

impl InputModel {
    /// The model keeps its geometry within [`DIM_CAP`].
    pub open spec fn wf_spec(&self) -> bool {
        &&& 0 <= self.em <= DIM_CAP
        &&& self.em * self.text.len() <= DIM_CAP
    }
}

impl<E> RawComponent<E> for InputComponent {
    /// An input is modelled by its characters, its font and its em size.
    type Model = InputModel;

    open spec fn model(&self) -> InputModel {
        InputModel { text: self.text@, font: self.font, em: self.em }
    }

    /// Inputs stay within [`DIM_CAP`] of their origin.
    open spec fn coord_cap() -> int {
        DIM_CAP as int
    }

    open spec fn wf(m: InputModel) -> bool {
        m.wf_spec()
    }

    /// One em of width per character.
    open spec fn width_spec(m: InputModel) -> int {
        m.em * m.text.len()
    }

    /// One em of height.
    open spec fn height_spec(m: InputModel) -> int {
        m.em as int
    }

    /// A single text shape anchored at the origin.
    open spec fn shapes_spec(m: InputModel) -> Seq<ShapeModel> {
        seq![
            ShapeModel::Text {
                text: m.text,
                font: m.font,
                bottom_left: Vec2 { x: 0, y: 0 },
                em: m.em,
            },
        ]
    }

    /// The interactive area is the rectangle from the origin to
    /// `(width, em)`, half-open on its upper edges.
    open spec fn hit_spec(m: InputModel, position: Vec2) -> bool {
        &&& 0 <= position.x < m.em * m.text.len()
        &&& 0 <= position.y < m.em
    }

    /// Inputs ignore the pointer and emit no event.
    open spec fn mouse_spec(m: InputModel, position: Option<Vec2>, pressed: bool) -> (
        InputModel,
        Seq<E>,
    ) {
        (m, Seq::empty())
    }

    proof fn lemma_wf_bounds(m: InputModel) {
        assert(0 <= m.em * m.text.len()) by (nonlinear_arith)
            requires
                0 <= m.em,
        ;
    }

    proof fn lemma_mouse_preserves_wf(m: InputModel, position: Option<Vec2>, pressed: bool) {
    }

    fn render(&self) -> (r: Vec<Shape>) {
        let mut shapes: Vec<Shape> = Vec::new();
        shapes.push(
            Shape::Text {
                text: self.text.clone(),
                font: self.font.duplicate(),
                bottom_left: Vec2 { x: 0, y: 0 },
                em: self.em,
            },
        );
        proof {
            assert(shapes.deep_view() =~= <InputComponent as RawComponent<E>>::shapes_spec(
                <InputComponent as RawComponent<E>>::model(self),
            ));
        }
        shapes
    }

    fn set_mouse_status(&mut self, position: Option<Vec2>, pressed: bool) -> (r: Vec<E>) {
        Vec::new()
    }

    fn hit_test(&self, position: Vec2) -> (r: bool) {
        let width: i64 = <InputComponent as RawComponent<E>>::get_width(self);
        position.x >= 0 && position.x < width && position.y >= 0 && position.y < self.em
    }

    fn get_width(&self) -> (r: i64) {
        let ghost m = <InputComponent as RawComponent<E>>::model(self);
        if self.em == 0 {
            proof {
                assert(m.em * m.text.len() == 0) by (nonlinear_arith)
                    requires
                        m.em == 0,
                ;
            }
            0
        } else {
            proof {
                assert(self.text@.len() <= DIM_CAP) by (nonlinear_arith)
                    requires
                        self.em * self.text@.len() <= DIM_CAP,
                        1 <= self.em,
                ;
            }
            let l: usize = self.text.as_str().unicode_len();
            let w: i64 = self.em * (l as i64);
            proof {
                assert(l as int == m.text.len());
                assert(w == m.em * m.text.len());
            }
            w
        }
    }

    fn get_height(&self) -> (r: i64) {
        self.em
    }
}

} // verus!
