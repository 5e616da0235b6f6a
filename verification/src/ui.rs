//! The root driver: owns the root widget, the viewport and the pointer
//! state, and recomputes the drawable shape list after every mutation.

use vstd::prelude::*;

use crate::component::{pos_dispatchable, RawComponent};
use crate::shape::{Shape, Vec2, LOGICAL_ONE};

verus! {

/// Bound on the logical pointer coordinates that any pixel position in
/// any viewport can map to.
pub const MOUSE_LOGICAL_BOUND: i64 = 0x20_0000_0000_0000;

/// The pointer position in logical coordinates: the viewport maps to the
/// square from `(-1, -1)` (bottom-left) to `(1, 1)` (top-right) in
/// logical units, pixel origin at the top-left.  A pointer outside the
/// window maps to the bottom-left corner as a far-off sentinel rather
/// than suppressing dispatch.
pub open spec fn logical_position_spec(mouse: Option<(u32, u32)>, viewport: (u32, u32)) -> Vec2
    recommends
        viewport.0 > 0,
        viewport.1 > 0,
{
    match mouse {
        Some(m) => Vec2 {
            x: (-LOGICAL_ONE + (2 * LOGICAL_ONE * m.0) / (viewport.0 as int)) as i64,
            y: (LOGICAL_ONE - (2 * LOGICAL_ONE * m.1) / (viewport.1 as int)) as i64,
        },
        None => Vec2 { x: -LOGICAL_ONE as i64, y: -LOGICAL_ONE as i64 },
    }
}

/// Maps a pixel pointer position to logical coordinates.
///
/// The screen center maps to the logical origin: with a viewport of
/// `800 x 600`, the pixel `(400, 300)` yields `(0, 0)`.
pub fn logical_position(mouse: Option<(u32, u32)>, viewport: (u32, u32)) -> (r: Vec2)
    requires
        viewport.0 > 0,
        viewport.1 > 0,
    ensures
        r == logical_position_spec(mouse, viewport),
        r.in_bounds(MOUSE_LOGICAL_BOUND as int),
{
    match mouse {
        Some(m) => {
            proof {
                assert((2 * LOGICAL_ONE * m.0) / (viewport.0 as int) <= 2 * LOGICAL_ONE * m.0
                    && 0 <= (2 * LOGICAL_ONE * m.0) / (viewport.0 as int)) by (nonlinear_arith)
                    requires
                        viewport.0 >= 1,
                        0 <= 2 * LOGICAL_ONE * m.0,
                ;
                assert((2 * LOGICAL_ONE * m.1) / (viewport.1 as int) <= 2 * LOGICAL_ONE * m.1
                    && 0 <= (2 * LOGICAL_ONE * m.1) / (viewport.1 as int)) by (nonlinear_arith)
                    requires
                        viewport.1 >= 1,
                        0 <= 2 * LOGICAL_ONE * m.1,
                ;
                assert(2 * LOGICAL_ONE * m.0 <= 2 * LOGICAL_ONE * 0xffff_ffff)
                    by (nonlinear_arith)
                    requires
                        m.0 <= 0xffff_ffffu32,
                ;
                assert(2 * LOGICAL_ONE * m.1 <= 2 * LOGICAL_ONE * 0xffff_ffff)
                    by (nonlinear_arith)
                    requires
                        m.1 <= 0xffff_ffffu32,
                ;
            }
            let x: i64 = -LOGICAL_ONE + (2 * LOGICAL_ONE * (m.0 as i64)) / (viewport.0 as i64);
            let y: i64 = LOGICAL_ONE - (2 * LOGICAL_ONE * (m.1 as i64)) / (viewport.1 as i64);
            Vec2 { x, y }
        },
        None => Vec2 { x: -LOGICAL_ONE, y: -LOGICAL_ONE },
    }
}

/// The main struct of this library. Manages the whole user interface:
/// it owns the root widget, the viewport size and the pointer state, and
/// keeps a cached list of the shapes to draw.
///
/// The cached list always reflects the most recent recomputation, which
/// happens on construction, after every setter, and when a scoped
/// mutable access to the root widget ends.
pub struct Ui<T, E> {
    /// The root widget.
    pub main_component: T,
    /// The shapes of the current frame, bottom to top.
    pub shapes: Vec<Shape>,
    /// The viewport size, in pixels; both sides are positive.
    pub viewport: (u32, u32),
    /// The last known pointer position, in pixels from the top-left
    /// corner; `None` when the pointer is outside the window.
    pub mouse: Option<(u32, u32)>,
    /// Whether the pointer button is currently down.
    pub mouse_pressed: bool,
    /// How many recomputations have happened; it counts one per
    /// construction, per setter call and per released scoped access.
    pub update_count: Ghost<int>,
    /// The event type the root widget reports.
    pub marker: core::marker::PhantomData<E>,
}

/// Allows mutable access to the main component of the [`Ui`].  While the
/// guard is alive it owns the whole interface, so no stale shape list
/// can be observed; releasing it recomputes the shapes exactly once.
pub struct UiMainComponentMutRef<T, E> {
    /// The user interface being mutated.
    pub ui: Ui<T, E>,
}

impl<T, E> Ui<T, E> where T: RawComponent<E> {
    /// The state the widget tree reaches when the current pointer state
    /// is dispatched to the current root widget.
    pub open spec fn stepped_model(self) -> T::Model {
        T::mouse_spec(
            self.main_component.model(),
            Some(logical_position_spec(self.mouse, self.viewport)),
            self.mouse_pressed,
        ).0
    }

    /// The root widget is well-formed and the viewport has positive
    /// extent.
    pub open spec fn wf(self) -> bool {
        &&& T::wf(self.main_component.model())
        &&& self.viewport.0 > 0
        &&& self.viewport.1 > 0
    }

    /// The cached shape list reflects the root widget's current state.
    pub open spec fn synced(self) -> bool {
        self.shapes.deep_view() == T::shapes_spec(self.main_component.model())
    }

    /// Recomputes the current frame: dispatches the pointer state to the
    /// root widget, then replaces the cached shape list with its render
    /// output.
    fn update(&mut self)
        requires
            old(self).wf(),
        ensures
            final(self).main_component.model() == old(self).stepped_model(),
            final(self).shapes.deep_view() == T::shapes_spec(old(self).stepped_model()),
            final(self).viewport == old(self).viewport,
            final(self).mouse == old(self).mouse,
            final(self).mouse_pressed == old(self).mouse_pressed,
            final(self).update_count@ == old(self).update_count@ + 1,
            final(self).wf(),
            final(self).synced(),
    {
        let pointer = logical_position(self.mouse, self.viewport);
        proof {
            T::lemma_wf_bounds(self.main_component.model());
            assert(pos_dispatchable(pointer, T::coord_cap()));
            T::lemma_mouse_preserves_wf(
                self.main_component.model(),
                Some(pointer),
                self.mouse_pressed,
            );
        }
        self.main_component.set_mouse_status(Some(pointer), self.mouse_pressed);
        self.shapes = self.main_component.render();
        proof {
            self.update_count = Ghost(self.update_count@ + 1);
        }
    }

    /// Builds the interface from its root widget and the viewport size,
    /// then immediately computes the first frame.
    pub fn new(component: T, viewport: (u32, u32)) -> (r: Ui<T, E>)
        requires
            T::wf(component.model()),
            viewport.0 > 0,
            viewport.1 > 0,
        ensures
            r.main_component.model() == T::mouse_spec(
                component.model(),
                Some(logical_position_spec(None, viewport)),
                false,
            ).0,
            r.shapes.deep_view() == T::shapes_spec(r.main_component.model()),
            r.viewport == viewport,
            r.mouse is None,
            !r.mouse_pressed,
            r.update_count@ == 1,
            r.wf(),
            r.synced(),
    {
        let mut ui = Ui {
            main_component: component,
            shapes: Vec::new(),
            viewport,
            mouse: None,
            mouse_pressed: false,
            update_count: Ghost(0),
            marker: core::marker::PhantomData,
        };
        ui.update();
        ui
    }

    /// Sets the viewport of the user interface and recomputes the frame.
    pub fn set_viewport(&mut self, dimensions: (u32, u32))
        requires
            old(self).wf(),
            dimensions.0 > 0,
            dimensions.1 > 0,
        ensures
            final(self).viewport == dimensions,
            final(self).mouse == old(self).mouse,
            final(self).mouse_pressed == old(self).mouse_pressed,
            final(self).main_component.model() == (Ui {
                viewport: dimensions,
                ..*old(self)
            }).stepped_model(),
            final(self).shapes.deep_view() == T::shapes_spec(final(self).main_component.model()),
            final(self).update_count@ == old(self).update_count@ + 1,
            final(self).wf(),
            final(self).synced(),
    {
        self.viewport = dimensions;
        self.update();
    }

    /// Changes the position of the mouse over the UI, in pixels from the
    /// top-left corner (`None` when the pointer left the window), and
    /// recomputes the frame.
    pub fn set_mouse_position(&mut self, position: Option<(u32, u32)>)
        requires
            old(self).wf(),
        ensures
            final(self).mouse == position,
            final(self).viewport == old(self).viewport,
            final(self).mouse_pressed == old(self).mouse_pressed,
            final(self).main_component.model() == (Ui {
                mouse: position,
                ..*old(self)
            }).stepped_model(),
            final(self).shapes.deep_view() == T::shapes_spec(final(self).main_component.model()),
            final(self).update_count@ == old(self).update_count@ + 1,
            final(self).wf(),
            final(self).synced(),
    {
        self.mouse = position;
        self.update();
    }

    /// Sets whether the mouse is pressed and recomputes the frame.
    pub fn set_mouse_pressed(&mut self, pressed: bool)
        requires
            old(self).wf(),
        ensures
            final(self).mouse_pressed == pressed,
            final(self).viewport == old(self).viewport,
            final(self).mouse == old(self).mouse,
            final(self).main_component.model() == (Ui {
                mouse_pressed: pressed,
                ..*old(self)
            }).stepped_model(),
            final(self).shapes.deep_view() == T::shapes_spec(final(self).main_component.model()),
            final(self).update_count@ == old(self).update_count@ + 1,
            final(self).wf(),
            final(self).synced(),
    {
        self.mouse_pressed = pressed;
        self.update();
    }

    /// Gives scoped mutable access to the main component.  The guard
    /// owns the interface; any number of mutations through it batch into
    /// the single recomputation that [`UiMainComponentMutRef::release`]
    /// performs.
    pub fn get_mut_main_component(self) -> (r: UiMainComponentMutRef<T, E>)
        ensures
            r.ui == self,
    {
        UiMainComponentMutRef { ui: self }
    }

    /// Returns the list of all the shapes that must be drawn as part of
    /// this UI, sorted from bottom to top.
    pub fn draw(&self) -> (r: &Vec<Shape>)
        ensures
            r@ == self.shapes@,
    {
        &self.shapes
    }
}

impl<T, E> UiMainComponentMutRef<T, E> where T: RawComponent<E> {
    /// Mutable access to the main component.
    pub fn component(&mut self) -> (r: &mut T)
        ensures
            *r == old(self).ui.main_component,
            final(self).ui == (Ui { main_component: *final(r), ..old(self).ui }),
    {
        &mut self.ui.main_component
    }

    /// Ends the scoped access: recomputes the frame exactly once,
    /// whatever number of mutations were made through the guard, and
    /// hands the interface back.
    pub fn release(self) -> (r: Ui<T, E>)
        requires
            self.ui.wf(),
        ensures
            r.main_component.model() == self.ui.stepped_model(),
            r.shapes.deep_view() == T::shapes_spec(self.ui.stepped_model()),
            r.viewport == self.ui.viewport,
            r.mouse == self.ui.mouse,
            r.mouse_pressed == self.ui.mouse_pressed,
            r.update_count@ == self.ui.update_count@ + 1,
            r.wf(),
            r.synced(),
    {
        let mut ui = self.ui;
        ui.update();
        ui
    }
}

} // verus!
