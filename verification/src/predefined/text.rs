//! A component that draws a line of text.

use vstd::prelude::*;
use vstd::string::StrSliceExecFns;

use crate::component::{RawComponent, DIM_CAP};
use crate::shape::{Font, Shape, ShapeModel, Vec2};

verus! {

/// A component that draws a single line of text and emits no event.
///
/// The text's width is approximated as one em per character, as no font
/// metrics are available to the core.
pub struct TextComponent {
    /// The text to display.
    pub text: String,
    /// The font to use.
    pub font: Font,
    /// The size of one em, in coordinate subunits.
    pub em: i64,
}

impl TextComponent {
    /// The text currently displayed.
    pub open spec fn text_spec(&self) -> Seq<char> {
        self.text@
    }

    /// The font in use.
    pub open spec fn font_spec(&self) -> Font {
        self.font
    }

    /// The size of one em, in coordinate subunits.
    pub open spec fn em_spec(&self) -> int {
        self.em as int
    }

    /// The state keeps its geometry within [`DIM_CAP`].
    pub open spec fn wf_spec(&self) -> bool {
        &&& 0 <= self.em <= DIM_CAP
        &&& self.em * self.text@.len() <= DIM_CAP
    }

    /// Builds a text component from its text, its font and its em size.
    pub fn new(text: String, font: Font, em: i64) -> (r: TextComponent)
        requires
            0 <= em <= DIM_CAP,
            em * text@.len() <= DIM_CAP,
        ensures
            r.text_spec() == text@,
            r.font_spec() == font,
            r.em_spec() == em as int,
            r.wf_spec(),
    {
        TextComponent { text, font, em }
    }

    /// Replaces the displayed text.
    pub fn set_text(&mut self, text: String)
        requires
            old(self).em_spec() * text@.len() <= DIM_CAP,
        ensures
            final(self).text_spec() == text@,
            final(self).font_spec() == old(self).font_spec(),
            final(self).em_spec() == old(self).em_spec(),
            old(self).wf_spec() ==> final(self).wf_spec(),
    {
        self.text = text;
    }

    /// Replaces the font.
    pub fn set_font(&mut self, font: Font)
        ensures
            final(self).text_spec() == old(self).text_spec(),
            final(self).font_spec() == font,
            final(self).em_spec() == old(self).em_spec(),
            old(self).wf_spec() ==> final(self).wf_spec(),
    {
        self.font = font;
    }

    /// Replaces the em size.
    pub fn set_em(&mut self, em: i64)
        requires
            0 <= em <= DIM_CAP,
            em * old(self).text_spec().len() <= DIM_CAP,
        ensures
            final(self).text_spec() == old(self).text_spec(),
            final(self).font_spec() == old(self).font_spec(),
            final(self).em_spec() == em as int,
            final(self).wf_spec(),
    {
        self.em = em;
    }

    /// Returns the dimensions of the component: one em per character of
    /// width, one em of height.
    pub fn get_dimensions(&self) -> (r: Vec2)
        requires
            self.wf_spec(),
        ensures
            r.x as int == self.em_spec() * self.text_spec().len(),
            r.y as int == self.em_spec(),
    {
        let width: i64 = if self.em == 0 {
            0
        } else {
            proof {
                assert(self.text@.len() <= DIM_CAP) by (nonlinear_arith)
                    requires
                        self.em * self.text@.len() <= DIM_CAP,
                        1 <= self.em,
                ;
            }
            self.em * (self.text.as_str().unicode_len() as i64)
        };
        Vec2 { x: width, y: self.em }
    }
}

/// The mathematical model of a [`TextComponent`]: its text as a
/// sequence of characters, its font and its em size.
pub struct TextModel {
    /// The characters displayed.
    pub text: Seq<char>,
    /// The font in use.
    pub font: Font,
    /// The size of one em, in coordinate subunits.
    pub em: i64,
}

impl TextModel {
    /// The model keeps its geometry within [`DIM_CAP`].
    pub open spec fn wf_spec(&self) -> bool {
        &&& 0 <= self.em <= DIM_CAP
        &&& self.em * self.text.len() <= DIM_CAP
    }
}

impl<E> RawComponent<E> for TextComponent {
    /// A text is modelled by its characters, its font and its em size.
    type Model = TextModel;

    open spec fn model(&self) -> TextModel {
        TextModel { text: self.text@, font: self.font, em: self.em }
    }

    /// Texts stay within [`DIM_CAP`] of their origin.
    open spec fn coord_cap() -> int {
        DIM_CAP as int
    }

    open spec fn wf(m: TextModel) -> bool {
        m.wf_spec()
    }

    /// One em of width per character.
    open spec fn width_spec(m: TextModel) -> int {
        m.em * m.text.len()
    }

    /// One em of height.
    open spec fn height_spec(m: TextModel) -> int {
        m.em as int
    }

    /// A single text shape anchored at the origin.
    open spec fn shapes_spec(m: TextModel) -> Seq<ShapeModel> {
        seq![
            ShapeModel::Text {
                text: m.text,
                font: m.font,
                bottom_left: Vec2 { x: 0, y: 0 },
                em: m.em,
            },
        ]
    }

    /// The interactive area is the rectangle from the origin to
    /// `(width, em)`, half-open on its upper edges.
    open spec fn hit_spec(m: TextModel, position: Vec2) -> bool {
        &&& 0 <= position.x < m.em * m.text.len()
        &&& 0 <= position.y < m.em
    }

    /// Texts ignore the pointer and emit no event.
    open spec fn mouse_spec(m: TextModel, position: Option<Vec2>, pressed: bool) -> (
        TextModel,
        Seq<E>,
    ) {
        (m, Seq::empty())
    }

    proof fn lemma_wf_bounds(m: TextModel) {
        assert(0 <= m.em * m.text.len()) by (nonlinear_arith)
            requires
                0 <= m.em,
        ;
    }

    proof fn lemma_mouse_preserves_wf(m: TextModel, position: Option<Vec2>, pressed: bool) {
    }

    fn render(&self) -> (r: Vec<Shape>) {
        let mut shapes: Vec<Shape> = Vec::new();
        shapes.push(
            Shape::Text {
                text: self.text.clone(),
                font: self.font.duplicate(),
                bottom_left: Vec2 { x: 0, y: 0 },
                em: self.em,
            },
        );
        proof {
            assert(shapes.deep_view() =~= <TextComponent as RawComponent<E>>::shapes_spec(
                <TextComponent as RawComponent<E>>::model(self),
            ));
        }
        shapes
    }

    fn set_mouse_status(&mut self, position: Option<Vec2>, pressed: bool) -> (r: Vec<E>) {
        Vec::new()
    }

    fn hit_test(&self, position: Vec2) -> (r: bool) {
        let width: i64 = <TextComponent as RawComponent<E>>::get_width(self);
        position.x >= 0 && position.x < width && position.y >= 0 && position.y < self.em
    }

    fn get_width(&self) -> (r: i64) {
        let dims: Vec2 = self.get_dimensions();
        dims.x
    }

    fn get_height(&self) -> (r: i64) {
        self.em
    }
}

} // verus!
