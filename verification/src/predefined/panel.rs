//! A plain grouping component.

use vstd::prelude::*;

use crate::component::RawComponent;
use crate::easy_component::{Component, HoveredStatus, Layout, LayoutModel};
use crate::shape::Vec2;

verus! {

/// A component that groups its children, absorbs their events and
/// reports nothing upward.  It remembers the hover status it was last
/// told, and may declare a bounding box so that the pointer resting on
/// the panel itself, outside every child, still counts as hovering it.
pub struct PanelComponent<E> {
    /// The bounding box the panel declares, if any.
    pub bounding_box: Option<(Vec2, Vec2)>,
    /// The hover status the panel was last told.
    pub hovered_status: HoveredStatus,
    /// The event type the children report.
    pub marker: core::marker::PhantomData<E>,
}

impl<E> PanelComponent<E> {
    /// Builds a panel without a bounding box.
    pub fn new() -> (r: PanelComponent<E>)
        ensures
            r.bounding_box is None,
            r.hovered_status == HoveredStatus::NotHovered,
    {
        PanelComponent {
            bounding_box: None,
            hovered_status: HoveredStatus::NotHovered,
            marker: core::marker::PhantomData,
        }
    }

    /// Builds a panel that declares the given bounding box.
    pub fn with_bounding_box(from: Vec2, to: Vec2) -> (r: PanelComponent<E>)
        ensures
            r.bounding_box == Some((from, to)),
            r.hovered_status == HoveredStatus::NotHovered,
    {
        PanelComponent {
            bounding_box: Some((from, to)),
            hovered_status: HoveredStatus::NotHovered,
            marker: core::marker::PhantomData,
        }
    }
}

impl<W, E> Component<W> for PanelComponent<E> where W: RawComponent<E> {
    type EmittedEvent = E;

    type ReceivedEvent = E;

    /// A panel is modelled by its bounding box and the hover status it
    /// was last told.
    type Model = (Option<(Vec2, Vec2)>, HoveredStatus);

    open spec fn model(&self) -> (Option<(Vec2, Vec2)>, HoveredStatus) {
        (self.bounding_box, self.hovered_status)
    }

    open spec fn wf(m: (Option<(Vec2, Vec2)>, HoveredStatus)) -> bool {
        true
    }

    /// A panel declares no dimensions.
    open spec fn dims_spec(m: (Option<(Vec2, Vec2)>, HoveredStatus)) -> Option<Vec2> {
        None
    }

    open spec fn bbox_spec(m: (Option<(Vec2, Vec2)>, HoveredStatus)) -> Option<(Vec2, Vec2)> {
        m.0
    }

    /// Hover notifications are remembered.
    open spec fn hovered_spec(m: (Option<(Vec2, Vec2)>, HoveredStatus), status: HoveredStatus) -> (
        Option<(Vec2, Vec2)>,
        HoveredStatus,
    ) {
        (m.0, status)
    }

    /// Every child event is absorbed and the children are left alone.
    open spec fn handle_spec(
        m: (Option<(Vec2, Vec2)>, HoveredStatus),
        layout: LayoutModel<W::Model>,
        child_id: usize,
        event: E,
    ) -> ((Option<(Vec2, Vec2)>, HoveredStatus), LayoutModel<W::Model>, Option<E>) {
        (m, layout, None)
    }

    proof fn lemma_hovered_preserves_wf(
        m: (Option<(Vec2, Vec2)>, HoveredStatus),
        status: HoveredStatus,
    ) {
    }

    proof fn lemma_handle_preserves_wf(
        m: (Option<(Vec2, Vec2)>, HoveredStatus),
        layout: LayoutModel<W::Model>,
        child_id: usize,
        event: E,
    ) {
    }

    fn handle_child_event(
        &mut self,
        layout: &mut Layout<W>,
        child_id: usize,
        event: E,
    ) -> (r: Option<E>) {
        None
    }

    fn set_hovered_status(&mut self, status: HoveredStatus) {
        self.hovered_status = status;
    }

    fn get_dimensions(&self) -> (r: Option<Vec2>) {
        None
    }

    fn get_bounding_box(&self) -> (r: Option<(Vec2, Vec2)>) {
        self.bounding_box
    }
}

} // verus!
