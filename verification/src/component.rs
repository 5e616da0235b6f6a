//! The low-level polymorphic capability every widget must provide.

use vstd::prelude::*;

use crate::shape::{Shape, ShapeModel, Vec2};

verus! {

/// Bound on the width, the height and the child offsets of a single
/// widget, in coordinate subunits.
pub const DIM_CAP: i64 = 0x100_0000_0000;

/// Bound that no widget's [`RawComponent::coord_cap`] may exceed.  Keeping
/// every coordinate below it leaves room in the machine range for pointer
/// positions handed down the tree.
pub const COORD_CAP_MAX: i64 = 0x1000_0000_0000_0000;

/// Whether a pointer position may be dispatched to a widget whose
/// [`RawComponent::coord_cap`] is `cap`: the position must leave enough
/// headroom that subtracting any in-cap offset stays in the machine range.
pub open spec fn pos_dispatchable(position: Vec2, cap: int) -> bool {
    position.in_bounds(i64::MAX - cap)
}

/// [`pos_dispatchable`] lifted to an optional position.
pub open spec fn opt_pos_dispatchable(position: Option<Vec2>, cap: int) -> bool {
    match position {
        Some(p) => pos_dispatchable(p, cap),
        None => true,
    }
}

/// Represents a raw component. Do not implement this directly: implement
/// [`crate::easy_component::Component`] and pair it with a layout in a
/// [`crate::easy_component::Node`] instead.
///
/// Every widget kind carries a mathematical [`RawComponent::Model`] of its
/// state, and the four executable operations are pinned to specification
/// functions over that model: `shapes_spec`, `hit_spec`, `width_spec` and
/// `height_spec` describe the widget's look and extent, `mouse_spec` its
/// reaction to the pointer.  Because one model underlies all of them, the
/// operations stay mutually consistent within one update pass, and because
/// `mouse_spec` preserves the width and the height, the extents used to
/// route the pointer are the extents that were rendered.
pub trait RawComponent<E>: Sized {
    /// The mathematical model of the widget's state.
    type Model;

    /// The model of the current state.
    spec fn model(&self) -> Self::Model;

    /// Type-level bound on every coordinate this widget kind produces:
    /// its shapes, its width and its height all stay within `coord_cap()`
    /// of the origin while the widget is well-formed.
    spec fn coord_cap() -> int;

    /// Well-formedness: the state keeps its geometry within
    /// [`RawComponent::coord_cap`].
    spec fn wf(m: Self::Model) -> bool;

    /// The widget's natural width for layout purposes.
    spec fn width_spec(m: Self::Model) -> int;

    /// The widget's natural height for layout purposes.
    spec fn height_spec(m: Self::Model) -> int;

    /// The widget's visual output, in its own coordinate space.
    spec fn shapes_spec(m: Self::Model) -> Seq<ShapeModel>;

    /// Whether `position`, in the widget's own coordinate space, lies
    /// within its interactive area.
    spec fn hit_spec(m: Self::Model, position: Vec2) -> bool;

    /// The widget's reaction to a pointer update: its new state and the
    /// events it reports to its parent, in order.
    spec fn mouse_spec(m: Self::Model, position: Option<Vec2>, pressed: bool) -> (
        Self::Model,
        Seq<E>,
    );

    /// Obligation: a well-formed widget's geometry honours its cap.
    proof fn lemma_wf_bounds(m: Self::Model)
        requires
            Self::wf(m),
        ensures
            0 < Self::coord_cap() <= COORD_CAP_MAX,
            0 <= Self::width_spec(m) <= Self::coord_cap(),
            0 <= Self::height_spec(m) <= Self::coord_cap(),
            forall|i: int|
                0 <= i < Self::shapes_spec(m).len() ==> (#[trigger] Self::shapes_spec(
                    m,
                )[i]).in_bounds(Self::coord_cap()),
    ;

    /// Obligation: reacting to the pointer keeps the widget well-formed
    /// and does not change its extent, so that the extents used to route
    /// the pointer within one update pass are settled.
    proof fn lemma_mouse_preserves_wf(m: Self::Model, position: Option<Vec2>, pressed: bool)
        requires
            Self::wf(m),
            opt_pos_dispatchable(position, Self::coord_cap()),
        ensures
            Self::wf(Self::mouse_spec(m, position, pressed).0),
            Self::width_spec(Self::mouse_spec(m, position, pressed).0) == Self::width_spec(m),
            Self::height_spec(Self::mouse_spec(m, position, pressed).0) == Self::height_spec(m),
    ;

    /// Obtains the look of this component, in its own coordinate space.
    /// Repeated calls without intervening mutation return equal shapes.
    fn render(&self) -> (r: Vec<Shape>)
        requires
            Self::wf(self.model()),
        ensures
            r.deep_view() == Self::shapes_spec(self.model()),
    ;

    /// Tells the component where the mouse is, in the component's own
    /// coordinate space; `None` if the mouse is not over the component.
    /// Returns the events to pass to the parent.
    fn set_mouse_status(&mut self, position: Option<Vec2>, pressed: bool) -> (r: Vec<E>)
        requires
            Self::wf(old(self).model()),
            opt_pos_dispatchable(position, Self::coord_cap()),
        ensures
            final(self).model() == Self::mouse_spec(old(self).model(), position, pressed).0,
            r@ == Self::mouse_spec(old(self).model(), position, pressed).1,
    ;

    /// Asks the component whether the given position touches it.
    fn hit_test(&self, position: Vec2) -> (r: bool)
        requires
            Self::wf(self.model()),
            pos_dispatchable(position, Self::coord_cap()),
        ensures
            r == Self::hit_spec(self.model(), position),
    ;

    /// Returns the width of the component.
    fn get_width(&self) -> (r: i64)
        requires
            Self::wf(self.model()),
        ensures
            r == Self::width_spec(self.model()),
    ;

    /// Returns the height of the component.
    fn get_height(&self) -> (r: i64)
        requires
            Self::wf(self.model()),
        ensures
            r == Self::height_spec(self.model()),
    ;
}

} // verus!
