//! The ergonomic component layer: a widget author implements
//! [`Component`] and pairs it with a [`Layout`] of children inside a
//! [`Node`]; the node then derives the full [`RawComponent`] capability by
//! interpreting the layout.

use vstd::prelude::*;

use crate::component::{
    opt_pos_dispatchable, pos_dispatchable, RawComponent, COORD_CAP_MAX, DIM_CAP,
};
use crate::shape::{Shape, ShapeModel, Vec2};

verus! {

/// State of a component in regards to the mouse position.
#[derive(Debug, Clone, Copy, PartialEq, Eq, Structural)]
pub enum HoveredStatus {
    /// The pointer is over this component itself.
    Hovered,
    /// The pointer is over one of this component's children.
    ChildHovered,
    /// The pointer is elsewhere.
    NotHovered,
}

/// A description of how a widget's children compose.  The children are
/// owned: a widget's subtree lives inside its layout.
pub enum Layout<W> {
    /// Exactly one child, the same size as its parent.
    SingleChild(Box<W>),
    /// An ordered sequence laid out left to right, each child advancing
    /// the running offset by its width.
    HorizontalBox(Vec<W>),
    /// An ordered sequence laid out bottom to top, each child advancing
    /// the running offset by its height.
    VerticalBox(Vec<W>),
    /// Children at explicit offsets relative to the parent's origin,
    /// independent of sibling sizes.
    PositionnedChildren(Vec<PositionnedChild<W>>),
}

/// A child together with its explicit offset, for
/// [`Layout::PositionnedChildren`].
pub struct PositionnedChild<W> {
    /// The child widget.
    pub child: W,
    /// Horizontal offset of the child's origin from the parent's origin.
    pub x: i64,
    /// Vertical offset of the child's origin from the parent's origin.
    pub y: i64,
}

/// The mathematical model of a [`Layout`], over the children's models.
pub enum LayoutModel<WM> {
    /// Model of [`Layout::SingleChild`].
    SingleChild(WM),
    /// Model of [`Layout::HorizontalBox`].
    HorizontalBox(Seq<WM>),
    /// Model of [`Layout::VerticalBox`].
    VerticalBox(Seq<WM>),
    /// Model of [`Layout::PositionnedChildren`].
    PositionnedChildren(Seq<PositionnedChildModel<WM>>),
}

/// The mathematical model of a [`PositionnedChild`].
pub struct PositionnedChildModel<WM> {
    /// The child's model.
    pub child: WM,
    /// Horizontal offset of the child.
    pub x: i64,
    /// Vertical offset of the child.
    pub y: i64,
}

/// A widget: a [`Component`] paired with the [`Layout`] of its children.
/// The node derives [`RawComponent`] from the component by interpreting
/// the layout.
pub struct Node<C, W> {
    /// The component controlling this widget: it handles the events its
    /// children report and is told about the pointer hovering it.
    pub component: C,
    /// The widget's children and their arrangement.
    pub layout: Layout<W>,
}

/// The mathematical model of a [`Node`].
pub struct NodeModel<CM, WM> {
    /// Model of the controlling component.
    pub component: CM,
    /// Model of the layout.
    pub layout: LayoutModel<WM>,
}

/// The ergonomic trait a widget author implements.  Pairing an
/// implementation with a [`Layout`] in a [`Node`] yields a full
/// [`RawComponent`].
///
/// A component's behaviour is pinned to specification functions over its
/// mathematical [`Component::Model`]: `handle_spec` says how it reacts to
/// an event a child reported, `hovered_spec` how it reacts to the pointer
/// hovering it, and `dims_spec` / `bbox_spec` what it declares about its
/// own extent.
pub trait Component<W>: Sized where W: RawComponent<Self::ReceivedEvent> {
    /// What events this component reports to its own parent.
    type EmittedEvent;

    /// What events this component expects to receive from its children.
    type ReceivedEvent;

    /// The mathematical model of the component's state.
    type Model;

    /// The model of the current state.
    spec fn model(&self) -> Self::Model;

    /// Well-formedness of the component's own state.
    spec fn wf(m: Self::Model) -> bool;

    /// The dimensions the component declares, if any; `None` lets the
    /// layout derive them.
    spec fn dims_spec(m: Self::Model) -> Option<Vec2>;

    /// The bounding box the component declares, if any; it is used to
    /// tell a hovered widget from one merely traversed.
    spec fn bbox_spec(m: Self::Model) -> Option<(Vec2, Vec2)>;

    /// The state after the component is told its hover status.
    spec fn hovered_spec(m: Self::Model, status: HoveredStatus) -> Self::Model;

    /// The component's reaction to an event a child reported: its new
    /// state, the children's new arrangement, and the event it reports
    /// to its own parent, if any.
    spec fn handle_spec(
        m: Self::Model,
        layout: LayoutModel<W::Model>,
        child_id: usize,
        event: Self::ReceivedEvent,
    ) -> (Self::Model, LayoutModel<W::Model>, Option<Self::EmittedEvent>);

    /// Obligation: hover notification keeps the component well-formed.
    proof fn lemma_hovered_preserves_wf(m: Self::Model, status: HoveredStatus)
        requires
            Self::wf(m),
        ensures
            Self::wf(Self::hovered_spec(m, status)),
    ;

    /// Obligation: handling a child event keeps the component and the
    /// layout well-formed and does not change the widget's extent, so
    /// that the extents used to route the pointer within one update pass
    /// are settled.
    proof fn lemma_handle_preserves_wf(
        m: Self::Model,
        layout: LayoutModel<W::Model>,
        child_id: usize,
        event: Self::ReceivedEvent,
    )
        requires
            Self::wf(m),
            layout_wf::<Self::ReceivedEvent, W>(layout),
        ensures
            Self::wf(Self::handle_spec(m, layout, child_id, event).0),
            layout_wf::<Self::ReceivedEvent, W>(Self::handle_spec(m, layout, child_id, event).1),
            layout_width::<Self::ReceivedEvent, W>(Self::handle_spec(m, layout, child_id, event).1)
                == layout_width::<Self::ReceivedEvent, W>(layout),
            layout_height::<Self::ReceivedEvent, W>(
                Self::handle_spec(m, layout, child_id, event).1,
            ) == layout_height::<Self::ReceivedEvent, W>(layout),
    ;

    /// A child has reported an event: `child_id` is the child's position
    /// in the layout, and the component may mutate itself and the layout
    /// and report an event to its own parent.
    fn handle_child_event(
        &mut self,
        layout: &mut Layout<W>,
        child_id: usize,
        event: Self::ReceivedEvent,
    ) -> (r: Option<Self::EmittedEvent>)
        requires
            Self::wf(old(self).model()),
            layout_wf::<Self::ReceivedEvent, W>(layout_model(*old(layout))),
        ensures
            final(self).model() == Self::handle_spec(
                old(self).model(),
                layout_model(*old(layout)),
                child_id,
                event,
            ).0,
            layout_model(*final(layout)) == Self::handle_spec(
                old(self).model(),
                layout_model(*old(layout)),
                child_id,
                event,
            ).1,
            r == Self::handle_spec(
                old(self).model(),
                layout_model(*old(layout)),
                child_id,
                event,
            ).2,
    ;

    /// Sets whether this component is hovered by the mouse or not.
    fn set_hovered_status(&mut self, status: HoveredStatus)
        requires
            Self::wf(old(self).model()),
        ensures
            final(self).model() == Self::hovered_spec(old(self).model(), status),
    ;

    /// Returns the dimensions of the component, or `None` to let the
    /// layout derive them.
    fn get_dimensions(&self) -> (r: Option<Vec2>)
        ensures
            r == Self::dims_spec(self.model()),
    ;

    /// Returns the bounding box of the component, or `None` when it does
    /// not declare one.
    fn get_bounding_box(&self) -> (r: Option<(Vec2, Vec2)>)
        ensures
            r == Self::bbox_spec(self.model()),
    ;
}

/// The model of a layout: each child replaced by its model.
pub open spec fn layout_model<E, W: RawComponent<E>>(l: Layout<W>) -> LayoutModel<W::Model> {
    match l {
        Layout::SingleChild(c) => LayoutModel::SingleChild((*c).model()),
        Layout::HorizontalBox(cs) => LayoutModel::HorizontalBox(
            cs@.map_values(|w: W| w.model()),
        ),
        Layout::VerticalBox(cs) => LayoutModel::VerticalBox(cs@.map_values(|w: W| w.model())),
        Layout::PositionnedChildren(ps) => LayoutModel::PositionnedChildren(
            ps@.map_values(
                |p: PositionnedChild<W>| PositionnedChildModel {
                    child: p.child.model(),
                    x: p.x,
                    y: p.y,
                },
            ),
        ),
    }
}

/// Sum of the widths of the first `n` children.
pub open spec fn widths_sum<E, W: RawComponent<E>>(cs: Seq<W::Model>, n: int) -> int
    decreases n,
{
    if n <= 0 {
        0
    } else {
        widths_sum::<E, W>(cs, n - 1) + W::width_spec(cs[n - 1])
    }
}

/// Sum of the heights of the first `n` children.
pub open spec fn heights_sum<E, W: RawComponent<E>>(cs: Seq<W::Model>, n: int) -> int
    decreases n,
{
    if n <= 0 {
        0
    } else {
        heights_sum::<E, W>(cs, n - 1) + W::height_spec(cs[n - 1])
    }
}

/// Largest width among the first `n` children, or `0` of none.
pub open spec fn widths_max<E, W: RawComponent<E>>(cs: Seq<W::Model>, n: int) -> int
    decreases n,
{
    if n <= 0 {
        0
    } else {
        let rest = widths_max::<E, W>(cs, n - 1);
        let w = W::width_spec(cs[n - 1]);
        if w > rest {
            w
        } else {
            rest
        }
    }
}

/// Largest height among the first `n` children, or `0` of none.
pub open spec fn heights_max<E, W: RawComponent<E>>(cs: Seq<W::Model>, n: int) -> int
    decreases n,
{
    if n <= 0 {
        0
    } else {
        let rest = heights_max::<E, W>(cs, n - 1);
        let h = W::height_spec(cs[n - 1]);
        if h > rest {
            h
        } else {
            rest
        }
    }
}

/// The width a layout gives its widget: pass-through for a single child,
/// sum of the children's widths for a horizontal box, largest child width
/// for a vertical box, and `0` for positioned children, which are
/// overlays and do not influence flow sizing.
pub open spec fn layout_width<E, W: RawComponent<E>>(lm: LayoutModel<W::Model>) -> int {
    match lm {
        LayoutModel::SingleChild(c) => W::width_spec(c),
        LayoutModel::HorizontalBox(cs) => widths_sum::<E, W>(cs, cs.len() as int),
        LayoutModel::VerticalBox(cs) => widths_max::<E, W>(cs, cs.len() as int),
        LayoutModel::PositionnedChildren(ps) => 0,
    }
}

/// The height a layout gives its widget: the transpose of
/// [`layout_width`].
pub open spec fn layout_height<E, W: RawComponent<E>>(lm: LayoutModel<W::Model>) -> int {
    match lm {
        LayoutModel::SingleChild(c) => W::height_spec(c),
        LayoutModel::HorizontalBox(cs) => heights_max::<E, W>(cs, cs.len() as int),
        LayoutModel::VerticalBox(cs) => heights_sum::<E, W>(cs, cs.len() as int),
        LayoutModel::PositionnedChildren(ps) => 0,
    }
}

/// Well-formedness of positioned children: every child is well-formed
/// and every explicit offset stays within [`DIM_CAP`].
pub open spec fn positioned_wf<E, W: RawComponent<E>>(
    ps: Seq<PositionnedChildModel<W::Model>>,
) -> bool {
    &&& forall|i: int| 0 <= i < ps.len() ==> W::wf((#[trigger] ps[i]).child)
    &&& forall|i: int|
        0 <= i < ps.len() ==> -DIM_CAP <= (#[trigger] ps[i]).x <= DIM_CAP && -DIM_CAP <= (
        ps[i]).y <= DIM_CAP
}

/// Well-formedness of a layout: every child is well-formed, a box's
/// accumulated extent stays within [`DIM_CAP`], and explicit offsets stay
/// within [`DIM_CAP`].
pub open spec fn layout_wf<E, W: RawComponent<E>>(lm: LayoutModel<W::Model>) -> bool {
    match lm {
        LayoutModel::SingleChild(c) => W::wf(c),
        LayoutModel::HorizontalBox(cs) => {
            &&& forall|i: int| 0 <= i < cs.len() ==> W::wf(#[trigger] cs[i])
            &&& widths_sum::<E, W>(cs, cs.len() as int) <= DIM_CAP
        },
        LayoutModel::VerticalBox(cs) => {
            &&& forall|i: int| 0 <= i < cs.len() ==> W::wf(#[trigger] cs[i])
            &&& heights_sum::<E, W>(cs, cs.len() as int) <= DIM_CAP
        },
        LayoutModel::PositionnedChildren(ps) => positioned_wf::<E, W>(ps),
    }
}

/// Prefix sums of widths are non-negative and monotone.
pub proof fn lemma_widths_sum_mono<E, W: RawComponent<E>>(cs: Seq<W::Model>, i: int, j: int)
    requires
        forall|k: int| 0 <= k < cs.len() ==> W::wf(#[trigger] cs[k]),
        0 <= i <= j <= cs.len(),
    ensures
        0 <= widths_sum::<E, W>(cs, i) <= widths_sum::<E, W>(cs, j),
    decreases j,
{
    if j > 0 {
        W::lemma_wf_bounds(cs[j - 1]);
        if i == j {
            lemma_widths_sum_mono::<E, W>(cs, i - 1, j - 1);
        } else {
            lemma_widths_sum_mono::<E, W>(cs, i, j - 1);
        }
    }
}

/// Prefix sums of heights are non-negative and monotone.
pub proof fn lemma_heights_sum_mono<E, W: RawComponent<E>>(cs: Seq<W::Model>, i: int, j: int)
    requires
        forall|k: int| 0 <= k < cs.len() ==> W::wf(#[trigger] cs[k]),
        0 <= i <= j <= cs.len(),
    ensures
        0 <= heights_sum::<E, W>(cs, i) <= heights_sum::<E, W>(cs, j),
    decreases j,
{
    if j > 0 {
        W::lemma_wf_bounds(cs[j - 1]);
        if i == j {
            lemma_heights_sum_mono::<E, W>(cs, i - 1, j - 1);
        } else {
            lemma_heights_sum_mono::<E, W>(cs, i, j - 1);
        }
    }
}

/// The largest width among children lies between `0` and the cap.
pub proof fn lemma_widths_max_bounds<E, W: RawComponent<E>>(cs: Seq<W::Model>, n: int)
    requires
        forall|k: int| 0 <= k < cs.len() ==> W::wf(#[trigger] cs[k]),
        0 <= n <= cs.len(),
    ensures
        0 <= widths_max::<E, W>(cs, n),
        n > 0 ==> widths_max::<E, W>(cs, n) <= W::coord_cap(),
    decreases n,
{
    if n > 0 {
        W::lemma_wf_bounds(cs[n - 1]);
        lemma_widths_max_bounds::<E, W>(cs, n - 1);
    }
}

/// The largest height among children lies between `0` and the cap.
pub proof fn lemma_heights_max_bounds<E, W: RawComponent<E>>(cs: Seq<W::Model>, n: int)
    requires
        forall|k: int| 0 <= k < cs.len() ==> W::wf(#[trigger] cs[k]),
        0 <= n <= cs.len(),
    ensures
        0 <= heights_max::<E, W>(cs, n),
        n > 0 ==> heights_max::<E, W>(cs, n) <= W::coord_cap(),
    decreases n,
{
    if n > 0 {
        W::lemma_wf_bounds(cs[n - 1]);
        lemma_heights_max_bounds::<E, W>(cs, n - 1);
    }
}

/// A sequence of shapes translated by one offset.
pub open spec fn translate_seq(shapes: Seq<ShapeModel>, off: Vec2) -> Seq<ShapeModel> {
    shapes.map_values(|s: ShapeModel| s.translate_spec(off))
}

/// The first `n` children's shapes, each child's translated by its
/// offset, concatenated in child order.
pub open spec fn shapes_cat<E, W: RawComponent<E>>(
    cs: Seq<W::Model>,
    offs: Seq<Vec2>,
    n: int,
) -> Seq<ShapeModel>
    decreases n,
{
    if n <= 0 {
        Seq::empty()
    } else {
        shapes_cat::<E, W>(cs, offs, n - 1) + translate_seq(W::shapes_spec(cs[n - 1]), offs[n - 1])
    }
}

/// Offsets of the children of a horizontal box: the running sum of the
/// widths of the children to the left.
pub open spec fn hbox_offsets<E, W: RawComponent<E>>(cs: Seq<W::Model>) -> Seq<Vec2> {
    Seq::new(cs.len(), |i: int| Vec2 { x: widths_sum::<E, W>(cs, i) as i64, y: 0 })
}

/// Offsets of the children of a vertical box: the running sum of the
/// heights of the children before.
pub open spec fn vbox_offsets<E, W: RawComponent<E>>(cs: Seq<W::Model>) -> Seq<Vec2> {
    Seq::new(cs.len(), |i: int| Vec2 { x: 0, y: heights_sum::<E, W>(cs, i) as i64 })
}

/// The children of a positioned layout, without their offsets.
pub open spec fn positioned_children<WM>(ps: Seq<PositionnedChildModel<WM>>) -> Seq<WM> {
    ps.map_values(|p: PositionnedChildModel<WM>| p.child)
}

/// The explicit offsets of a positioned layout.
pub open spec fn positioned_offsets<WM>(ps: Seq<PositionnedChildModel<WM>>) -> Seq<Vec2> {
    ps.map_values(|p: PositionnedChildModel<WM>| Vec2 { x: p.x, y: p.y })
}

/// The position of the first child, in list order, whose interactive
/// area contains the position, searching from child `k` on: each child
/// sees the position translated into its own coordinate space.
pub open spec fn first_hit_from<E, W: RawComponent<E>>(
    cs: Seq<W::Model>,
    offs: Seq<Vec2>,
    pos: Vec2,
    k: int,
) -> Option<int>
    decreases cs.len() - k,
{
    if k < 0 || k >= cs.len() {
        None
    } else if W::hit_spec(cs[k], pos.sub_spec(offs[k])) {
        Some(k)
    } else {
        first_hit_from::<E, W>(cs, offs, pos, k + 1)
    }
}

/// What [`first_hit_from`] returns: the first hit child, none before it,
/// and none at all when it returns `None`.
pub proof fn lemma_first_hit_props<E, W: RawComponent<E>>(
    cs: Seq<W::Model>,
    offs: Seq<Vec2>,
    pos: Vec2,
    k: int,
)
    requires
        0 <= k,
    ensures
        match first_hit_from::<E, W>(cs, offs, pos, k) {
            Some(i) => {
                &&& k <= i < cs.len()
                &&& W::hit_spec(cs[i], pos.sub_spec(offs[i]))
                &&& forall|j: int|
                    k <= j < i ==> !W::hit_spec(#[trigger] cs[j], pos.sub_spec(offs[j]))
            },
            None => forall|j: int|
                k <= j < cs.len() ==> !W::hit_spec(#[trigger] cs[j], pos.sub_spec(offs[j])),
        },
    decreases cs.len() - k,
{
    if k < cs.len() && !W::hit_spec(cs[k], pos.sub_spec(offs[k])) {
        lemma_first_hit_props::<E, W>(cs, offs, pos, k + 1);
    }
}

/// The position a child receives during pointer dispatch: the pointer
/// translated into the child's coordinate space when the child is the
/// first hit, and no position otherwise.
pub open spec fn dispatch_position<E, W: RawComponent<E>>(
    cs: Seq<W::Model>,
    offs: Seq<Vec2>,
    position: Option<Vec2>,
    i: int,
) -> Option<Vec2> {
    match position {
        None => None,
        Some(p) => if first_hit_from::<E, W>(cs, offs, p, 0) == Some(i) {
            Some(p.sub_spec(offs[i]))
        } else {
            None
        },
    }
}

/// The children's states after pointer dispatch.
pub open spec fn walk_children<E, W: RawComponent<E>>(
    cs: Seq<W::Model>,
    offs: Seq<Vec2>,
    position: Option<Vec2>,
    pressed: bool,
) -> Seq<W::Model> {
    Seq::new(
        cs.len(),
        |i: int| W::mouse_spec(cs[i], dispatch_position::<E, W>(cs, offs, position, i), pressed).0,
    )
}

/// The events each child reports during pointer dispatch, in child
/// order.
pub open spec fn walk_events<E, W: RawComponent<E>>(
    cs: Seq<W::Model>,
    offs: Seq<Vec2>,
    position: Option<Vec2>,
    pressed: bool,
) -> Seq<Seq<E>> {
    Seq::new(
        cs.len(),
        |i: int| W::mouse_spec(cs[i], dispatch_position::<E, W>(cs, offs, position, i), pressed).1,
    )
}

/// Events tagged with one child's position in the layout.
pub open spec fn tag_seq<T>(s: Seq<T>, id: usize) -> Seq<(usize, T)> {
    s.map_values(|e: T| (id, e))
}

/// All children's events tagged with their child's position, in child
/// order.
pub open spec fn tag_events<T>(evss: Seq<Seq<T>>) -> Seq<(usize, T)>
    decreases evss.len(),
{
    if evss.len() <= 0 {
        Seq::empty()
    } else {
        tag_events(evss.drop_last()) + tag_seq(evss.last(), (evss.len() - 1) as usize)
    }
}

/// An optional event as a sequence of zero or one events.
pub open spec fn opt_event_seq<T>(o: Option<T>) -> Seq<T> {
    match o {
        Some(e) => seq![e],
        None => Seq::empty(),
    }
}

/// A component handling the children's events one by one, in order: the
/// component's state and the layout thread through every step, and the
/// events not absorbed are reported onward in order.
pub open spec fn handle_fold<W, C>(
    cm: C::Model,
    lm: LayoutModel<W::Model>,
    evs: Seq<(usize, C::ReceivedEvent)>,
) -> (C::Model, LayoutModel<W::Model>, Seq<C::EmittedEvent>) where
    C: Component<W>,
    W: RawComponent<C::ReceivedEvent>,

    decreases evs.len(),
{
    if evs.len() <= 0 {
        (cm, lm, Seq::empty())
    } else {
        let step = C::handle_spec(cm, lm, evs[0].0, evs[0].1);
        let rest = handle_fold::<W, C>(step.0, step.1, evs.drop_first());
        (rest.0, rest.1, opt_event_seq(step.2) + rest.2)
    }
}

/// Whether a bounding box contains a position, half-open on its upper
/// edges.
pub open spec fn bbox_contains(bb: (Vec2, Vec2), p: Vec2) -> bool {
    &&& bb.0.x <= p.x < bb.1.x
    &&& bb.0.y <= p.y < bb.1.y
}

/// The hover status a widget's component is told after pointer dispatch:
/// a child under the pointer makes it `ChildHovered`; otherwise the
/// pointer inside the component's own bounding box, when it declares
/// one, makes it `Hovered`.
pub open spec fn hover_status(
    position: Option<Vec2>,
    found: bool,
    bbox: Option<(Vec2, Vec2)>,
) -> HoveredStatus {
    match position {
        None => HoveredStatus::NotHovered,
        Some(p) => if found {
            HoveredStatus::ChildHovered
        } else {
            match bbox {
                Some(bb) => if bbox_contains(bb, p) {
                    HoveredStatus::Hovered
                } else {
                    HoveredStatus::NotHovered
                },
                None => HoveredStatus::NotHovered,
            }
        },
    }
}

/// Whether a position lies within some child's interactive area, each
/// child tested in its own coordinate space.
pub open spec fn layout_hit<E, W: RawComponent<E>>(lm: LayoutModel<W::Model>, pos: Vec2) -> bool {
    match lm {
        LayoutModel::SingleChild(c) => W::hit_spec(c, pos),
        LayoutModel::HorizontalBox(cs) => first_hit_from::<E, W>(
            cs,
            hbox_offsets::<E, W>(cs),
            pos,
            0,
        ) is Some,
        LayoutModel::VerticalBox(cs) => first_hit_from::<E, W>(
            cs,
            vbox_offsets::<E, W>(cs),
            pos,
            0,
        ) is Some,
        LayoutModel::PositionnedChildren(ps) => first_hit_from::<E, W>(
            positioned_children(ps),
            positioned_offsets(ps),
            pos,
            0,
        ) is Some,
    }
}

/// The shapes a layout produces: every child's shapes translated by the
/// child's offset, concatenated in child order; a single child's shapes
/// pass through unmodified.
pub open spec fn layout_shapes<E, W: RawComponent<E>>(lm: LayoutModel<W::Model>) -> Seq<ShapeModel> {
    match lm {
        LayoutModel::SingleChild(c) => W::shapes_spec(c),
        LayoutModel::HorizontalBox(cs) => shapes_cat::<E, W>(
            cs,
            hbox_offsets::<E, W>(cs),
            cs.len() as int,
        ),
        LayoutModel::VerticalBox(cs) => shapes_cat::<E, W>(
            cs,
            vbox_offsets::<E, W>(cs),
            cs.len() as int,
        ),
        LayoutModel::PositionnedChildren(ps) => shapes_cat::<E, W>(
            positioned_children(ps),
            positioned_offsets(ps),
            ps.len() as int,
        ),
    }
}

/// One pointer dispatch over a layout: the first child hit receives the
/// pointer in its own coordinate space, every other child receives no
/// position, a single child receives the pointer as it stands, and the
/// children's reported events are collected in child order.
pub open spec fn layout_walk<E, W: RawComponent<E>>(
    lm: LayoutModel<W::Model>,
    position: Option<Vec2>,
    pressed: bool,
) -> (LayoutModel<W::Model>, Seq<Seq<E>>) {
    match lm {
        LayoutModel::SingleChild(c) => {
            let r = W::mouse_spec(c, position, pressed);
            (LayoutModel::SingleChild(r.0), seq![r.1])
        },
        LayoutModel::HorizontalBox(cs) => {
            let offs = hbox_offsets::<E, W>(cs);
            (
                LayoutModel::HorizontalBox(walk_children::<E, W>(cs, offs, position, pressed)),
                walk_events::<E, W>(cs, offs, position, pressed),
            )
        },
        LayoutModel::VerticalBox(cs) => {
            let offs = vbox_offsets::<E, W>(cs);
            (
                LayoutModel::VerticalBox(walk_children::<E, W>(cs, offs, position, pressed)),
                walk_events::<E, W>(cs, offs, position, pressed),
            )
        },
        LayoutModel::PositionnedChildren(ps) => {
            let cs = positioned_children(ps);
            let offs = positioned_offsets(ps);
            let cs2 = walk_children::<E, W>(cs, offs, position, pressed);
            (
                LayoutModel::PositionnedChildren(
                    Seq::new(
                        ps.len(),
                        |i: int| PositionnedChildModel { child: cs2[i], x: ps[i].x, y: ps[i].y },
                    ),
                ),
                walk_events::<E, W>(cs, offs, position, pressed),
            )
        },
    }
}

/// Well-formedness of a widget: its component and its layout are
/// well-formed, and the widget's coordinate cap leaves pointer headroom.
pub open spec fn node_wf<W, C>(m: NodeModel<C::Model, W::Model>) -> bool where
    C: Component<W>,
    W: RawComponent<C::ReceivedEvent>,
{
    &&& C::wf(m.component)
    &&& layout_wf::<C::ReceivedEvent, W>(m.layout)
    &&& 0 <= W::coord_cap()
    &&& W::coord_cap() + DIM_CAP <= COORD_CAP_MAX
}

/// The offsets of a horizontal box stay within [`DIM_CAP`].
pub proof fn lemma_hbox_offsets_bounds<E, W: RawComponent<E>>(cs: Seq<W::Model>)
    requires
        forall|k: int| 0 <= k < cs.len() ==> W::wf(#[trigger] cs[k]),
        widths_sum::<E, W>(cs, cs.len() as int) <= DIM_CAP,
    ensures
        forall|i: int|
            0 <= i < cs.len() ==> (#[trigger] hbox_offsets::<E, W>(cs)[i]).in_bounds(
                DIM_CAP as int,
            ) && hbox_offsets::<E, W>(cs)[i].x == widths_sum::<E, W>(cs, i),
{
    assert forall|i: int| 0 <= i < cs.len() implies (#[trigger] hbox_offsets::<E, W>(
        cs,
    )[i]).in_bounds(DIM_CAP as int) && hbox_offsets::<E, W>(cs)[i].x == widths_sum::<E, W>(
        cs,
        i,
    ) by {
        lemma_widths_sum_mono::<E, W>(cs, i, cs.len() as int);
    }
}

/// The offsets of a vertical box stay within [`DIM_CAP`].
pub proof fn lemma_vbox_offsets_bounds<E, W: RawComponent<E>>(cs: Seq<W::Model>)
    requires
        forall|k: int| 0 <= k < cs.len() ==> W::wf(#[trigger] cs[k]),
        heights_sum::<E, W>(cs, cs.len() as int) <= DIM_CAP,
    ensures
        forall|i: int|
            0 <= i < cs.len() ==> (#[trigger] vbox_offsets::<E, W>(cs)[i]).in_bounds(
                DIM_CAP as int,
            ) && vbox_offsets::<E, W>(cs)[i].y == heights_sum::<E, W>(cs, i),
{
    assert forall|i: int| 0 <= i < cs.len() implies (#[trigger] vbox_offsets::<E, W>(
        cs,
    )[i]).in_bounds(DIM_CAP as int) && vbox_offsets::<E, W>(cs)[i].y == heights_sum::<E, W>(
        cs,
        i,
    ) by {
        lemma_heights_sum_mono::<E, W>(cs, i, cs.len() as int);
    }
}

/// Every shape of a concatenation of translated child shapes stays
/// within the children's cap plus the offsets' bound.
pub proof fn lemma_shapes_cat_bounds<E, W: RawComponent<E>>(
    cs: Seq<W::Model>,
    offs: Seq<Vec2>,
    n: int,
)
    requires
        forall|k: int| 0 <= k < cs.len() ==> W::wf(#[trigger] cs[k]),
        forall|k: int| 0 <= k < cs.len() ==> (#[trigger] offs[k]).in_bounds(DIM_CAP as int),
        0 <= n <= cs.len(),
        W::coord_cap() + DIM_CAP <= i64::MAX,
        0 <= W::coord_cap(),
    ensures
        forall|j: int|
            0 <= j < shapes_cat::<E, W>(cs, offs, n).len() ==> (#[trigger] shapes_cat::<E, W>(
                cs,
                offs,
                n,
            )[j]).in_bounds(W::coord_cap() + DIM_CAP),
    decreases n,
{
    if n > 0 {
        lemma_shapes_cat_bounds::<E, W>(cs, offs, n - 1);
        W::lemma_wf_bounds(cs[n - 1]);
        let front = shapes_cat::<E, W>(cs, offs, n - 1);
        let shapes = W::shapes_spec(cs[n - 1]);
        let tail = translate_seq(shapes, offs[n - 1]);
        assert forall|j: int| 0 <= j < shapes_cat::<E, W>(cs, offs, n).len() implies (
        #[trigger] shapes_cat::<E, W>(cs, offs, n)[j]).in_bounds(W::coord_cap() + DIM_CAP) by {
            if j < front.len() {
                assert(shapes_cat::<E, W>(cs, offs, n)[j] == front[j]);
            } else {
                assert(shapes_cat::<E, W>(cs, offs, n)[j] == tail[j - front.len()]);
                crate::shape::lemma_translate_bounds(
                    shapes[j - front.len()],
                    offs[n - 1],
                    W::coord_cap(),
                    DIM_CAP as int,
                );
            }
        }
    }
}

/// Children of pointwise equal widths give equal width sums.
pub proof fn lemma_widths_sum_congruent<E, W: RawComponent<E>>(
    cs: Seq<W::Model>,
    cs2: Seq<W::Model>,
    n: int,
)
    requires
        forall|i: int|
            0 <= i < n ==> W::width_spec(#[trigger] cs2[i]) == W::width_spec(cs[i]),
    ensures
        widths_sum::<E, W>(cs2, n) == widths_sum::<E, W>(cs, n),
    decreases n,
{
    if n > 0 {
        lemma_widths_sum_congruent::<E, W>(cs, cs2, n - 1);
    }
}

/// Children of pointwise equal heights give equal height sums.
pub proof fn lemma_heights_sum_congruent<E, W: RawComponent<E>>(
    cs: Seq<W::Model>,
    cs2: Seq<W::Model>,
    n: int,
)
    requires
        forall|i: int|
            0 <= i < n ==> W::height_spec(#[trigger] cs2[i]) == W::height_spec(cs[i]),
    ensures
        heights_sum::<E, W>(cs2, n) == heights_sum::<E, W>(cs, n),
    decreases n,
{
    if n > 0 {
        lemma_heights_sum_congruent::<E, W>(cs, cs2, n - 1);
    }
}

/// Children of pointwise equal widths give equal largest widths.
pub proof fn lemma_widths_max_congruent<E, W: RawComponent<E>>(
    cs: Seq<W::Model>,
    cs2: Seq<W::Model>,
    n: int,
)
    requires
        forall|i: int|
            0 <= i < n ==> W::width_spec(#[trigger] cs2[i]) == W::width_spec(cs[i]),
    ensures
        widths_max::<E, W>(cs2, n) == widths_max::<E, W>(cs, n),
    decreases n,
{
    if n > 0 {
        lemma_widths_max_congruent::<E, W>(cs, cs2, n - 1);
    }
}

/// Children of pointwise equal heights give equal largest heights.
pub proof fn lemma_heights_max_congruent<E, W: RawComponent<E>>(
    cs: Seq<W::Model>,
    cs2: Seq<W::Model>,
    n: int,
)
    requires
        forall|i: int|
            0 <= i < n ==> W::height_spec(#[trigger] cs2[i]) == W::height_spec(cs[i]),
    ensures
        heights_max::<E, W>(cs2, n) == heights_max::<E, W>(cs, n),
    decreases n,
{
    if n > 0 {
        lemma_heights_max_congruent::<E, W>(cs, cs2, n - 1);
    }
}

/// The position handed to a dispatched child is in the child's pointer
/// headroom, and pointer dispatch keeps every child well-formed and of
/// unchanged extent.
pub proof fn lemma_walk_preserves<E, W: RawComponent<E>>(
    cs: Seq<W::Model>,
    offs: Seq<Vec2>,
    position: Option<Vec2>,
    pressed: bool,
)
    requires
        forall|k: int| 0 <= k < cs.len() ==> W::wf(#[trigger] cs[k]),
        forall|k: int| 0 <= k < cs.len() ==> (#[trigger] offs[k]).in_bounds(DIM_CAP as int),
        opt_pos_dispatchable(position, W::coord_cap() + DIM_CAP),
        0 <= W::coord_cap(),
        W::coord_cap() + DIM_CAP <= COORD_CAP_MAX,
    ensures
        forall|i: int|
            0 <= i < cs.len() ==> opt_pos_dispatchable(
                #[trigger] dispatch_position::<E, W>(cs, offs, position, i),
                W::coord_cap(),
            ),
        forall|i: int|
            0 <= i < cs.len() ==> W::wf(
                #[trigger] walk_children::<E, W>(cs, offs, position, pressed)[i],
            ) && W::width_spec(walk_children::<E, W>(cs, offs, position, pressed)[i])
                == W::width_spec(cs[i]) && W::height_spec(
                walk_children::<E, W>(cs, offs, position, pressed)[i],
            ) == W::height_spec(cs[i]),
{
    assert forall|i: int| 0 <= i < cs.len() implies opt_pos_dispatchable(
        #[trigger] dispatch_position::<E, W>(cs, offs, position, i),
        W::coord_cap(),
    ) by {
        match dispatch_position::<E, W>(cs, offs, position, i) {
            Some(q) => {
                let p = position.unwrap();
                assert(q == p.sub_spec(offs[i]));
            },
            None => {},
        }
    }
    assert forall|i: int| 0 <= i < cs.len() implies W::wf(
        #[trigger] walk_children::<E, W>(cs, offs, position, pressed)[i],
    ) && W::width_spec(walk_children::<E, W>(cs, offs, position, pressed)[i]) == W::width_spec(
        cs[i],
    ) && W::height_spec(walk_children::<E, W>(cs, offs, position, pressed)[i])
        == W::height_spec(cs[i]) by {
        W::lemma_mouse_preserves_wf(
            cs[i],
            dispatch_position::<E, W>(cs, offs, position, i),
            pressed,
        );
    }
}

/// Pointer dispatch keeps a layout well-formed and of unchanged extent.
pub proof fn lemma_layout_walk_preserves<E, W: RawComponent<E>>(
    lm: LayoutModel<W::Model>,
    position: Option<Vec2>,
    pressed: bool,
)
    requires
        layout_wf::<E, W>(lm),
        opt_pos_dispatchable(position, W::coord_cap() + DIM_CAP),
        0 <= W::coord_cap(),
        W::coord_cap() + DIM_CAP <= COORD_CAP_MAX,
    ensures
        layout_wf::<E, W>(layout_walk::<E, W>(lm, position, pressed).0),
        layout_width::<E, W>(layout_walk::<E, W>(lm, position, pressed).0) == layout_width::<
            E,
            W,
        >(lm),
        layout_height::<E, W>(layout_walk::<E, W>(lm, position, pressed).0) == layout_height::<
            E,
            W,
        >(lm),
{
    match lm {
        LayoutModel::SingleChild(c) => {
            W::lemma_mouse_preserves_wf(c, position, pressed);
        },
        LayoutModel::HorizontalBox(cs) => {
            let offs = hbox_offsets::<E, W>(cs);
            lemma_hbox_offsets_bounds::<E, W>(cs);
            lemma_walk_preserves::<E, W>(cs, offs, position, pressed);
            let cs2 = walk_children::<E, W>(cs, offs, position, pressed);
            lemma_widths_sum_congruent::<E, W>(cs, cs2, cs.len() as int);
            lemma_heights_max_congruent::<E, W>(cs, cs2, cs.len() as int);
        },
        LayoutModel::VerticalBox(cs) => {
            let offs = vbox_offsets::<E, W>(cs);
            lemma_vbox_offsets_bounds::<E, W>(cs);
            lemma_walk_preserves::<E, W>(cs, offs, position, pressed);
            let cs2 = walk_children::<E, W>(cs, offs, position, pressed);
            lemma_heights_sum_congruent::<E, W>(cs, cs2, cs.len() as int);
            lemma_widths_max_congruent::<E, W>(cs, cs2, cs.len() as int);
        },
        LayoutModel::PositionnedChildren(ps) => {
            let cs = positioned_children(ps);
            let offs = positioned_offsets(ps);
            lemma_walk_preserves::<E, W>(cs, offs, position, pressed);
        },
    }
}

/// Handling a sequence of child events keeps the component and the
/// layout well-formed and the widget's extent unchanged.
pub proof fn lemma_handle_fold_preserves<W, C>(
    cm: C::Model,
    lm: LayoutModel<W::Model>,
    evs: Seq<(usize, C::ReceivedEvent)>,
) where C: Component<W>, W: RawComponent<C::ReceivedEvent>
    requires
        C::wf(cm),
        layout_wf::<C::ReceivedEvent, W>(lm),
    ensures
        C::wf(handle_fold::<W, C>(cm, lm, evs).0),
        layout_wf::<C::ReceivedEvent, W>(handle_fold::<W, C>(cm, lm, evs).1),
        layout_width::<C::ReceivedEvent, W>(handle_fold::<W, C>(cm, lm, evs).1) == layout_width::<
            C::ReceivedEvent,
            W,
        >(lm),
        layout_height::<C::ReceivedEvent, W>(handle_fold::<W, C>(cm, lm, evs).1)
            == layout_height::<C::ReceivedEvent, W>(lm),
    decreases evs.len(),
{
    if evs.len() > 0 {
        C::lemma_handle_preserves_wf(cm, lm, evs[0].0, evs[0].1);
        let step = C::handle_spec(cm, lm, evs[0].0, evs[0].1);
        lemma_handle_fold_preserves::<W, C>(step.0, step.1, evs.drop_first());
    }
}

/// A widget's reaction to one pointer update: the pointer is dispatched
/// over the layout first-hit-wins, the component is told its hover
/// status, and it then handles the children's events in order; what it
/// does not absorb is reported to its own parent.
pub open spec fn node_mouse<W, C>(
    m: NodeModel<C::Model, W::Model>,
    position: Option<Vec2>,
    pressed: bool,
) -> (NodeModel<C::Model, W::Model>, Seq<C::EmittedEvent>) where
    C: Component<W>,
    W: RawComponent<C::ReceivedEvent>,
{
    let walk = layout_walk::<C::ReceivedEvent, W>(m.layout, position, pressed);
    let found = match position {
        None => false,
        Some(p) => layout_hit::<C::ReceivedEvent, W>(m.layout, p),
    };
    let status = hover_status(position, found, C::bbox_spec(m.component));
    let cm1 = C::hovered_spec(m.component, status);
    let fold = handle_fold::<W, C>(cm1, walk.0, tag_events(walk.1));
    (NodeModel { component: fold.0, layout: fold.1 }, fold.2)
}

/// Law: box extents are additive.  A horizontal box is as wide as the
/// sum of its children's widths and as tall as its tallest child; a
/// vertical box is the transpose: as tall as the sum of its children's
/// heights and as wide as its widest child.
pub proof fn lemma_box_extent_additivity<W, C>(m: NodeModel<C::Model, W::Model>) where
    C: Component<W>,
    W: RawComponent<C::ReceivedEvent>,

    ensures
        m.layout matches LayoutModel::HorizontalBox(cs) ==> {
            &&& <Node<C, W> as RawComponent<C::EmittedEvent>>::width_spec(m) == widths_sum::<
                C::ReceivedEvent,
                W,
            >(cs, cs.len() as int)
            &&& <Node<C, W> as RawComponent<C::EmittedEvent>>::height_spec(m) == heights_max::<
                C::ReceivedEvent,
                W,
            >(cs, cs.len() as int)
        },
        m.layout matches LayoutModel::VerticalBox(cs) ==> {
            &&& <Node<C, W> as RawComponent<C::EmittedEvent>>::height_spec(m) == heights_sum::<
                C::ReceivedEvent,
                W,
            >(cs, cs.len() as int)
            &&& <Node<C, W> as RawComponent<C::EmittedEvent>>::width_spec(m) == widths_max::<
                C::ReceivedEvent,
                W,
            >(cs, cs.len() as int)
        },
{
}

/// Law: pointer dispatch over a box is first-hit-wins.  With the
/// pointer at `p`, the first child, in layout order, whose interactive
/// area contains the pointer translated into its own coordinate space
/// receives that translated position; every child before it failed its
/// hit test, and every other child receives no position at all.  This
/// holds whatever the pressed flag, which is forwarded to every child
/// unchanged.
pub proof fn lemma_first_hit_wins<E, W: RawComponent<E>>(cs: Seq<W::Model>, offs: Seq<Vec2>, p: Vec2)
    ensures
        match first_hit_from::<E, W>(cs, offs, p, 0) {
            Some(h) => {
                &&& 0 <= h < cs.len()
                &&& W::hit_spec(cs[h], p.sub_spec(offs[h]))
                &&& dispatch_position::<E, W>(cs, offs, Some(p), h) == Some(p.sub_spec(offs[h]))
                &&& forall|j: int|
                    0 <= j < cs.len() && j != h ==> #[trigger] dispatch_position::<E, W>(
                        cs,
                        offs,
                        Some(p),
                        j,
                    ) == None::<Vec2>
                &&& forall|j: int|
                    0 <= j < h ==> !W::hit_spec(#[trigger] cs[j], p.sub_spec(offs[j]))
            },
            None => forall|j: int|
                0 <= j < cs.len() ==> #[trigger] dispatch_position::<E, W>(
                    cs,
                    offs,
                    Some(p),
                    j,
                ) == None::<Vec2>,
        },
{
    lemma_first_hit_props::<E, W>(cs, offs, p, 0);
}

/// One step of tagging: the events of child `i` append to the tagged
/// events of the children before it.
pub proof fn lemma_tag_events_take_step<T>(evss: Seq<Seq<T>>, i: int)
    requires
        0 <= i < evss.len(),
    ensures
        tag_events(evss.take(i + 1)) == tag_events(evss.take(i)) + tag_seq(
            evss[i],
            i as usize,
        ),
{
    assert(evss.take(i + 1).drop_last() =~= evss.take(i));
    assert(evss.take(i + 1).last() == evss[i]);
}

/// Appends every event of `src`, tagged with one child's position, to
/// `dst`, in order.
fn push_tagged<T>(dst: &mut Vec<(usize, T)>, src: Vec<T>, id: usize)
    ensures
        final(dst)@ == old(dst)@ + tag_seq(src@, id),
{
    let ghost orig = src@;
    let ghost mut j: int = 0;
    let mut rest = src;
    while rest.len() > 0
        invariant
            0 <= j <= orig.len(),
            rest@ == orig.skip(j),
            dst@ == old(dst)@ + tag_seq(orig.take(j), id),
        decreases rest.len(),
    {
        let e = rest.remove(0);
        proof {
            assert(e == orig[j]);
        }
        dst.push((id, e));
        proof {
            assert(orig.skip(j).drop_first() =~= orig.skip(j + 1));
            assert(tag_seq(orig.take(j + 1), id) =~= tag_seq(orig.take(j), id).push((id, orig[j])));
            j = j + 1;
        }
    }
    proof {
        assert(orig.take(j) =~= orig);
        assert(final(dst)@ == old(dst)@ + tag_seq(orig, id));
    }
}

impl<C, W> RawComponent<<C as Component<W>>::EmittedEvent> for Node<C, W> where
    C: Component<W>,
    W: RawComponent<<C as Component<W>>::ReceivedEvent>,
 {
    /// A widget's model pairs its component's model with its layout's.
    type Model = NodeModel<C::Model, W::Model>;

    open spec fn model(&self) -> NodeModel<C::Model, W::Model> {
        NodeModel {
            component: self.component.model(),
            layout: layout_model::<C::ReceivedEvent, W>(self.layout),
        }
    }

    /// A widget reaches one box extent beyond what its children reach.
    open spec fn coord_cap() -> int {
        W::coord_cap() + DIM_CAP
    }

    open spec fn wf(m: NodeModel<C::Model, W::Model>) -> bool {
        node_wf::<W, C>(m)
    }

    open spec fn width_spec(m: NodeModel<C::Model, W::Model>) -> int {
        layout_width::<C::ReceivedEvent, W>(m.layout)
    }

    open spec fn height_spec(m: NodeModel<C::Model, W::Model>) -> int {
        layout_height::<C::ReceivedEvent, W>(m.layout)
    }

    open spec fn shapes_spec(m: NodeModel<C::Model, W::Model>) -> Seq<ShapeModel> {
        layout_shapes::<C::ReceivedEvent, W>(m.layout)
    }

    open spec fn hit_spec(m: NodeModel<C::Model, W::Model>, position: Vec2) -> bool {
        layout_hit::<C::ReceivedEvent, W>(m.layout, position)
    }

    open spec fn mouse_spec(
        m: NodeModel<C::Model, W::Model>,
        position: Option<Vec2>,
        pressed: bool,
    ) -> (NodeModel<C::Model, W::Model>, Seq<<C as Component<W>>::EmittedEvent>) {
        node_mouse::<W, C>(m, position, pressed)
    }

    proof fn lemma_wf_bounds(m: NodeModel<C::Model, W::Model>) {
        match m.layout {
            LayoutModel::SingleChild(c) => {
                W::lemma_wf_bounds(c);
                assert forall|i: int|
                    0 <= i < W::shapes_spec(c).len() implies (#[trigger] W::shapes_spec(
                    c,
                )[i]).in_bounds(W::coord_cap() + DIM_CAP) by {
                    assert(W::shapes_spec(c)[i].in_bounds(W::coord_cap()));
                }
            },
            LayoutModel::HorizontalBox(cs) => {
                let n = cs.len() as int;
                lemma_widths_sum_mono::<C::ReceivedEvent, W>(cs, n, n);
                lemma_heights_max_bounds::<C::ReceivedEvent, W>(cs, n);
                lemma_hbox_offsets_bounds::<C::ReceivedEvent, W>(cs);
                lemma_shapes_cat_bounds::<C::ReceivedEvent, W>(
                    cs,
                    hbox_offsets::<C::ReceivedEvent, W>(cs),
                    n,
                );
            },
            LayoutModel::VerticalBox(cs) => {
                let n = cs.len() as int;
                lemma_heights_sum_mono::<C::ReceivedEvent, W>(cs, n, n);
                lemma_widths_max_bounds::<C::ReceivedEvent, W>(cs, n);
                lemma_vbox_offsets_bounds::<C::ReceivedEvent, W>(cs);
                lemma_shapes_cat_bounds::<C::ReceivedEvent, W>(
                    cs,
                    vbox_offsets::<C::ReceivedEvent, W>(cs),
                    n,
                );
            },
            LayoutModel::PositionnedChildren(ps) => {
                let cs = positioned_children(ps);
                let offs = positioned_offsets(ps);
                assert(forall|k: int| 0 <= k < cs.len() ==> W::wf(#[trigger] cs[k]));
                assert(forall|k: int|
                    0 <= k < cs.len() ==> (#[trigger] offs[k]).in_bounds(DIM_CAP as int));
                lemma_shapes_cat_bounds::<C::ReceivedEvent, W>(cs, offs, ps.len() as int);
            },
        }
    }

    proof fn lemma_mouse_preserves_wf(
        m: NodeModel<C::Model, W::Model>,
        position: Option<Vec2>,
        pressed: bool,
    ) {
        lemma_layout_walk_preserves::<C::ReceivedEvent, W>(m.layout, position, pressed);
        let walk = layout_walk::<C::ReceivedEvent, W>(m.layout, position, pressed);
        let found = match position {
            None => false,
            Some(p) => layout_hit::<C::ReceivedEvent, W>(m.layout, p),
        };
        let status = hover_status(position, found, C::bbox_spec(m.component));
        C::lemma_hovered_preserves_wf(m.component, status);
        let cm1 = C::hovered_spec(m.component, status);
        lemma_handle_fold_preserves::<W, C>(cm1, walk.0, tag_events(walk.1));
    }

    fn render(&self) -> (r: Vec<Shape>) {
        let ghost m = self.model();
        match &self.layout {
            Layout::SingleChild(child) => child.render(),
            Layout::HorizontalBox(children) => {
                let ghost cs = children@.map_values(|w: W| w.model());
                let ghost offs = hbox_offsets::<C::ReceivedEvent, W>(cs);
                let n = children.len();
                let mut out: Vec<Shape> = Vec::new();
                let mut x: i64 = 0;
                let mut i: usize = 0;
                proof {
                    lemma_hbox_offsets_bounds::<C::ReceivedEvent, W>(cs);
                }
                while i < n
                    invariant
                        n == children.len(),
                        cs == children@.map_values(|w: W| w.model()),
                        offs == hbox_offsets::<C::ReceivedEvent, W>(cs),
                        forall|k: int| 0 <= k < n ==> W::wf(#[trigger] cs[k]),
                        widths_sum::<C::ReceivedEvent, W>(cs, n as int) <= DIM_CAP,
                        forall|k: int|
                            0 <= k < n ==> (#[trigger] offs[k]).in_bounds(DIM_CAP as int),
                        0 <= W::coord_cap(),
                        W::coord_cap() + DIM_CAP <= COORD_CAP_MAX,
                        0 <= i <= n,
                        x == widths_sum::<C::ReceivedEvent, W>(cs, i as int),
                        out.deep_view() == shapes_cat::<C::ReceivedEvent, W>(cs, offs, i as int),
                    decreases n - i,
                {
                    proof {
                        lemma_widths_sum_mono::<C::ReceivedEvent, W>(cs, 0, i as int);
                        lemma_widths_sum_mono::<C::ReceivedEvent, W>(cs, i as int, n as int);
                        lemma_widths_sum_mono::<C::ReceivedEvent, W>(cs, i + 1, n as int);
                        assert(cs[i as int] == children@[i as int].model());
                        W::lemma_wf_bounds(cs[i as int]);
                    }
                    let mut rest = children[i].render();
                    let off = Vec2 { x, y: 0 };
                    proof {
                        assert(off == offs[i as int]);
                    }
                    let ghost origv = rest@;
                    let ghost orig = W::shapes_spec(cs[i as int]);
                    let ghost mut j: int = 0;
                    proof {
                        assert forall|k: int| 0 <= k < origv.len() implies (#[trigger] origv[k])@
                            == orig[k] by {
                            assert(rest.deep_view()[k] == origv[k]@);
                        }
                    }
                    while rest.len() > 0
                        invariant
                            0 <= j <= origv.len(),
                            origv.len() == orig.len(),
                            rest@ == origv.skip(j),
                            forall|k: int| 0 <= k < origv.len() ==> (#[trigger] origv[k])@ == orig[k],
                            forall|k: int|
                                0 <= k < orig.len() ==> (#[trigger] orig[k]).in_bounds(
                                    W::coord_cap(),
                                ),
                            off.in_bounds(DIM_CAP as int),
                            0 <= W::coord_cap(),
                            W::coord_cap() + DIM_CAP <= COORD_CAP_MAX,
                            out.deep_view() == shapes_cat::<C::ReceivedEvent, W>(cs, offs, i as int)
                                + translate_seq(orig.take(j), off),
                        decreases rest.len(),
                    {
                        let s = rest.remove(0);
                        proof {
                            assert(s == origv[j]);
                            crate::shape::lemma_translate_bounds(
                                s@,
                                off,
                                W::coord_cap(),
                                DIM_CAP as int,
                            );
                        }
                        let ghost out_pre = out.deep_view();
                        out.push(s.translate(off));
                        proof {
                            assert(origv.skip(j).drop_first() =~= origv.skip(j + 1));
                            assert(out.deep_view() =~= out_pre.push(orig[j].translate_spec(off)));
                            assert(translate_seq(orig.take(j + 1), off) =~= translate_seq(
                                orig.take(j),
                                off,
                            ).push(orig[j].translate_spec(off)));
                            j = j + 1;
                        }
                    }
                    proof {
                        assert(orig.take(j) =~= orig);
                        assert(out.deep_view() == shapes_cat::<C::ReceivedEvent, W>(
                            cs,
                            offs,
                            i + 1,
                        ));
                    }
                    let w = children[i].get_width();
                    x = x + w;
                    i = i + 1;
                }
                out
            },
            Layout::VerticalBox(children) => {
                let ghost cs = children@.map_values(|w: W| w.model());
                let ghost offs = vbox_offsets::<C::ReceivedEvent, W>(cs);
                let n = children.len();
                let mut out: Vec<Shape> = Vec::new();
                let mut y: i64 = 0;
                let mut i: usize = 0;
                proof {
                    lemma_vbox_offsets_bounds::<C::ReceivedEvent, W>(cs);
                }
                while i < n
                    invariant
                        n == children.len(),
                        cs == children@.map_values(|w: W| w.model()),
                        offs == vbox_offsets::<C::ReceivedEvent, W>(cs),
                        forall|k: int| 0 <= k < n ==> W::wf(#[trigger] cs[k]),
                        heights_sum::<C::ReceivedEvent, W>(cs, n as int) <= DIM_CAP,
                        forall|k: int|
                            0 <= k < n ==> (#[trigger] offs[k]).in_bounds(DIM_CAP as int),
                        0 <= W::coord_cap(),
                        W::coord_cap() + DIM_CAP <= COORD_CAP_MAX,
                        0 <= i <= n,
                        y == heights_sum::<C::ReceivedEvent, W>(cs, i as int),
                        out.deep_view() == shapes_cat::<C::ReceivedEvent, W>(cs, offs, i as int),
                    decreases n - i,
                {
                    proof {
                        lemma_heights_sum_mono::<C::ReceivedEvent, W>(cs, 0, i as int);
                        lemma_heights_sum_mono::<C::ReceivedEvent, W>(cs, i as int, n as int);
                        lemma_heights_sum_mono::<C::ReceivedEvent, W>(cs, i + 1, n as int);
                        assert(cs[i as int] == children@[i as int].model());
                        W::lemma_wf_bounds(cs[i as int]);
                    }
                    let mut rest = children[i].render();
                    let off = Vec2 { x: 0, y };
                    proof {
                        assert(off == offs[i as int]);
                    }
                    let ghost origv = rest@;
                    let ghost orig = W::shapes_spec(cs[i as int]);
                    let ghost mut j: int = 0;
                    proof {
                        assert forall|k: int| 0 <= k < origv.len() implies (#[trigger] origv[k])@
                            == orig[k] by {
                            assert(rest.deep_view()[k] == origv[k]@);
                        }
                    }
                    while rest.len() > 0
                        invariant
                            0 <= j <= origv.len(),
                            origv.len() == orig.len(),
                            rest@ == origv.skip(j),
                            forall|k: int| 0 <= k < origv.len() ==> (#[trigger] origv[k])@ == orig[k],
                            forall|k: int|
                                0 <= k < orig.len() ==> (#[trigger] orig[k]).in_bounds(
                                    W::coord_cap(),
                                ),
                            off.in_bounds(DIM_CAP as int),
                            0 <= W::coord_cap(),
                            W::coord_cap() + DIM_CAP <= COORD_CAP_MAX,
                            out.deep_view() == shapes_cat::<C::ReceivedEvent, W>(cs, offs, i as int)
                                + translate_seq(orig.take(j), off),
                        decreases rest.len(),
                    {
                        let s = rest.remove(0);
                        proof {
                            assert(s == origv[j]);
                            crate::shape::lemma_translate_bounds(
                                s@,
                                off,
                                W::coord_cap(),
                                DIM_CAP as int,
                            );
                        }
                        let ghost out_pre = out.deep_view();
                        out.push(s.translate(off));
                        proof {
                            assert(origv.skip(j).drop_first() =~= origv.skip(j + 1));
                            assert(out.deep_view() =~= out_pre.push(orig[j].translate_spec(off)));
                            assert(translate_seq(orig.take(j + 1), off) =~= translate_seq(
                                orig.take(j),
                                off,
                            ).push(orig[j].translate_spec(off)));
                            j = j + 1;
                        }
                    }
                    proof {
                        assert(orig.take(j) =~= orig);
                        assert(out.deep_view() == shapes_cat::<C::ReceivedEvent, W>(
                            cs,
                            offs,
                            i + 1,
                        ));
                    }
                    let h = children[i].get_height();
                    y = y + h;
                    i = i + 1;
                }
                out
            },
            Layout::PositionnedChildren(children) => {
                let ghost ps = children@.map_values(
                    |q: PositionnedChild<W>| PositionnedChildModel {
                        child: q.child.model(),
                        x: q.x,
                        y: q.y,
                    },
                );
                let ghost cs = positioned_children(ps);
                let ghost offs = positioned_offsets(ps);
                let n = children.len();
                let mut out: Vec<Shape> = Vec::new();
                let mut i: usize = 0;
                proof {
                    assert(ps.len() == n);
                    assert(layout_wf::<C::ReceivedEvent, W>(LayoutModel::PositionnedChildren(ps)));
                    assert forall|k: int| 0 <= k < n implies W::wf(#[trigger] cs[k]) && (
                    offs[k]).in_bounds(DIM_CAP as int) by {
                        assert(W::wf(ps[k].child));
                        assert(cs[k] == ps[k].child);
                        assert(offs[k] == (Vec2 { x: ps[k].x, y: ps[k].y }));
                    }
                }
                while i < n
                    invariant
                        n == children.len(),
                        ps == children@.map_values(
                            |q: PositionnedChild<W>| PositionnedChildModel {
                                child: q.child.model(),
                                x: q.x,
                                y: q.y,
                            },
                        ),
                        cs == positioned_children(ps),
                        offs == positioned_offsets(ps),
                        forall|k: int| 0 <= k < n ==> W::wf(#[trigger] cs[k]),
                        forall|k: int|
                            0 <= k < n ==> (#[trigger] offs[k]).in_bounds(DIM_CAP as int),
                        0 <= W::coord_cap(),
                        W::coord_cap() + DIM_CAP <= COORD_CAP_MAX,
                        0 <= i <= n,
                        out.deep_view() == shapes_cat::<C::ReceivedEvent, W>(cs, offs, i as int),
                    decreases n - i,
                {
                    proof {
                        assert(cs[i as int] == children@[i as int].child.model());
                        W::lemma_wf_bounds(cs[i as int]);
                    }
                    let mut rest = children[i].child.render();
                    let off = Vec2 { x: children[i].x, y: children[i].y };
                    proof {
                        assert(off == offs[i as int]);
                    }
                    let ghost origv = rest@;
                    let ghost orig = W::shapes_spec(cs[i as int]);
                    let ghost mut j: int = 0;
                    proof {
                        assert forall|k: int| 0 <= k < origv.len() implies (#[trigger] origv[k])@
                            == orig[k] by {
                            assert(rest.deep_view()[k] == origv[k]@);
                        }
                    }
                    while rest.len() > 0
                        invariant
                            0 <= j <= origv.len(),
                            origv.len() == orig.len(),
                            rest@ == origv.skip(j),
                            forall|k: int| 0 <= k < origv.len() ==> (#[trigger] origv[k])@ == orig[k],
                            forall|k: int|
                                0 <= k < orig.len() ==> (#[trigger] orig[k]).in_bounds(
                                    W::coord_cap(),
                                ),
                            off.in_bounds(DIM_CAP as int),
                            0 <= W::coord_cap(),
                            W::coord_cap() + DIM_CAP <= COORD_CAP_MAX,
                            out.deep_view() == shapes_cat::<C::ReceivedEvent, W>(cs, offs, i as int)
                                + translate_seq(orig.take(j), off),
                        decreases rest.len(),
                    {
                        let s = rest.remove(0);
                        proof {
                            assert(s == origv[j]);
                            crate::shape::lemma_translate_bounds(
                                s@,
                                off,
                                W::coord_cap(),
                                DIM_CAP as int,
                            );
                        }
                        let ghost out_pre = out.deep_view();
                        out.push(s.translate(off));
                        proof {
                            assert(origv.skip(j).drop_first() =~= origv.skip(j + 1));
                            assert(out.deep_view() =~= out_pre.push(orig[j].translate_spec(off)));
                            assert(translate_seq(orig.take(j + 1), off) =~= translate_seq(
                                orig.take(j),
                                off,
                            ).push(orig[j].translate_spec(off)));
                            j = j + 1;
                        }
                    }
                    proof {
                        assert(orig.take(j) =~= orig);
                        assert(out.deep_view() == shapes_cat::<C::ReceivedEvent, W>(
                            cs,
                            offs,
                            i + 1,
                        ));
                    }
                    i = i + 1;
                }
                out
            },
        }
    }

    fn set_mouse_status(
        &mut self,
        position: Option<Vec2>,
        pressed: bool,
    ) -> (r: Vec<<C as Component<W>>::EmittedEvent>) {
        let ghost m0 = self.model();
        let ghost walk = layout_walk::<C::ReceivedEvent, W>(m0.layout, position, pressed);
        let mut events_acc: Vec<(usize, <C as Component<W>>::ReceivedEvent)> = Vec::new();
        let mut found: bool = false;
        proof {
            lemma_layout_walk_preserves::<C::ReceivedEvent, W>(m0.layout, position, pressed);
        }
        match &mut self.layout {
            Layout::SingleChild(child) => {
                if let Some(p) = position {
                    found = child.hit_test(p);
                }
                let evs = child.set_mouse_status(position, pressed);
                push_tagged(&mut events_acc, evs, 0);
                proof {
                    assert(walk.1 =~= seq![
                        W::mouse_spec(m0.layout->SingleChild_0, position, pressed).1,
                    ]);
                    assert(tag_events(walk.1.drop_last()) =~= Seq::<
                        (usize, <C as Component<W>>::ReceivedEvent),
                    >::empty());
                    assert(events_acc@ =~= tag_events(walk.1));
                }
            },
            Layout::HorizontalBox(children) => {
                let ghost cs = children@.map_values(|w: W| w.model());
                let ghost offs = hbox_offsets::<C::ReceivedEvent, W>(cs);
                let ghost evss = walk_events::<C::ReceivedEvent, W>(cs, offs, position, pressed);
                let n = children.len();
                let mut i: usize = 0;
                proof {
                    lemma_hbox_offsets_bounds::<C::ReceivedEvent, W>(cs);
                    lemma_walk_preserves::<C::ReceivedEvent, W>(cs, offs, position, pressed);
                }
                match position {
                    Some(p) => {
                        proof {
                            lemma_first_hit_props::<C::ReceivedEvent, W>(cs, offs, p, 0);
                        }
                        let mut cur: Vec2 = p;
                        while i < n
                            invariant
                                n == children.len(),
                                cs.len() == n,
                                offs == hbox_offsets::<C::ReceivedEvent, W>(cs),
                                evss == walk_events::<C::ReceivedEvent, W>(
                                    cs,
                                    offs,
                                    Some(p),
                                    pressed,
                                ),
                                forall|k: int| 0 <= k < n ==> W::wf(#[trigger] cs[k]),
                                widths_sum::<C::ReceivedEvent, W>(cs, n as int) <= DIM_CAP,
                                forall|k: int|
                                    0 <= k < n ==> (#[trigger] offs[k]).in_bounds(DIM_CAP as int),
                                forall|k: int|
                                    0 <= k < n ==> opt_pos_dispatchable(
                                        #[trigger] dispatch_position::<C::ReceivedEvent, W>(
                                            cs,
                                            offs,
                                            Some(p),
                                            k,
                                        ),
                                        W::coord_cap(),
                                    ),
                                0 <= W::coord_cap(),
                                W::coord_cap() + DIM_CAP <= COORD_CAP_MAX,
                                pos_dispatchable(p, W::coord_cap() + DIM_CAP),
                                0 <= i <= n,
                                forall|k: int|
                                    0 <= k < i ==> (#[trigger] children@[k]).model()
                                        == walk_children::<C::ReceivedEvent, W>(
                                        cs,
                                        offs,
                                        Some(p),
                                        pressed,
                                    )[k],
                                forall|k: int|
                                    i <= k < n ==> (#[trigger] children@[k]).model() == cs[k],
                                events_acc@ == tag_events(evss.take(i as int)),
                                found == (match first_hit_from::<C::ReceivedEvent, W>(
                                    cs,
                                    offs,
                                    p,
                                    0,
                                ) {
                                    Some(h) => h < i,
                                    None => false,
                                }),
                                !found ==> cur.x == p.x - widths_sum::<C::ReceivedEvent, W>(
                                    cs,
                                    i as int,
                                ) && cur.y == p.y,
                            decreases n - i,
                        {
                            proof {
                                lemma_widths_sum_mono::<C::ReceivedEvent, W>(cs, 0, i as int);
                                lemma_widths_sum_mono::<C::ReceivedEvent, W>(
                                    cs,
                                    i as int,
                                    n as int,
                                );
                                lemma_widths_sum_mono::<C::ReceivedEvent, W>(cs, i + 1, n as int);
                                lemma_first_hit_props::<C::ReceivedEvent, W>(cs, offs, p, 0);
                                lemma_first_hit_props::<C::ReceivedEvent, W>(
                                    cs,
                                    offs,
                                    p,
                                    i as int,
                                );
                                lemma_first_hit_props::<C::ReceivedEvent, W>(cs, offs, p, i + 1);
                                W::lemma_mouse_preserves_wf(
                                    cs[i as int],
                                    dispatch_position::<C::ReceivedEvent, W>(
                                        cs,
                                        offs,
                                        Some(p),
                                        i as int,
                                    ),
                                    pressed,
                                );
                            }
                            let ghost dpos = dispatch_position::<C::ReceivedEvent, W>(
                                cs,
                                offs,
                                Some(p),
                                i as int,
                            );
                            let evs: Vec<<C as Component<W>>::ReceivedEvent>;
                            if found {
                                proof {
                                    assert(dpos == None::<Vec2>);
                                }
                                evs = children[i].set_mouse_status(None, pressed);
                            } else {
                                proof {
                                    assert(cur == p.sub_spec(offs[i as int]));
                                }
                                if children[i].hit_test(cur) {
                                    proof {
                                        assert(first_hit_from::<C::ReceivedEvent, W>(
                                            cs,
                                            offs,
                                            p,
                                            i as int,
                                        ) == Some(i as int));
                                        assert(dpos == Some(cur));
                                    }
                                    evs = children[i].set_mouse_status(Some(cur), pressed);
                                    found = true;
                                } else {
                                    proof {
                                        assert(first_hit_from::<C::ReceivedEvent, W>(
                                            cs,
                                            offs,
                                            p,
                                            i as int,
                                        ) == first_hit_from::<C::ReceivedEvent, W>(
                                            cs,
                                            offs,
                                            p,
                                            i + 1,
                                        ));
                                        assert(dpos == None::<Vec2>);
                                    }
                                    evs = children[i].set_mouse_status(None, pressed);
                                    proof {
                                        W::lemma_mouse_preserves_wf(cs[i as int], dpos, pressed);
                                        assert(children@[i as int].model() == W::mouse_spec(
                                            cs[i as int],
                                            dpos,
                                            pressed,
                                        ).0);
                                    }
                                    let w = children[i].get_width();
                                    cur = Vec2 { x: cur.x - w, y: cur.y };
                                }
                            }
                            push_tagged(&mut events_acc, evs, i);
                            proof {
                                lemma_tag_events_take_step(evss, i as int);
                                assert(children@[i as int].model() == W::mouse_spec(
                                    cs[i as int],
                                    dpos,
                                    pressed,
                                ).0);
                                assert(walk_children::<C::ReceivedEvent, W>(
                                    cs,
                                    offs,
                                    Some(p),
                                    pressed,
                                )[i as int] == W::mouse_spec(cs[i as int], dpos, pressed).0);
                                assert(evs@ == evss[i as int]);
                            }
                            i = i + 1;
                        }
                        proof {
                            assert(evss.take(n as int) =~= evss);
                        }
                    },
                    None => {
                        while i < n
                            invariant
                                n == children.len(),
                                cs.len() == n,
                                offs == hbox_offsets::<C::ReceivedEvent, W>(cs),
                                evss == walk_events::<C::ReceivedEvent, W>(
                                    cs,
                                    offs,
                                    None,
                                    pressed,
                                ),
                                forall|k: int| 0 <= k < n ==> W::wf(#[trigger] cs[k]),
                                0 <= i <= n,
                                forall|k: int|
                                    0 <= k < i ==> (#[trigger] children@[k]).model()
                                        == walk_children::<C::ReceivedEvent, W>(
                                        cs,
                                        offs,
                                        None,
                                        pressed,
                                    )[k],
                                forall|k: int|
                                    i <= k < n ==> (#[trigger] children@[k]).model() == cs[k],
                                events_acc@ == tag_events(evss.take(i as int)),
                                !found,
                            decreases n - i,
                        {
                            let evs = children[i].set_mouse_status(None, pressed);
                            push_tagged(&mut events_acc, evs, i);
                            proof {
                                lemma_tag_events_take_step(evss, i as int);
                            }
                            i = i + 1;
                        }
                        proof {
                            assert(evss.take(n as int) =~= evss);
                        }
                    },
                }
                proof {
                    assert(children@.map_values(|w: W| w.model()) =~= walk_children::<
                        C::ReceivedEvent,
                        W,
                    >(cs, offs, position, pressed));
                }
            },
            Layout::VerticalBox(children) => {
                let ghost cs = children@.map_values(|w: W| w.model());
                let ghost offs = vbox_offsets::<C::ReceivedEvent, W>(cs);
                let ghost evss = walk_events::<C::ReceivedEvent, W>(cs, offs, position, pressed);
                let n = children.len();
                let mut i: usize = 0;
                proof {
                    lemma_vbox_offsets_bounds::<C::ReceivedEvent, W>(cs);
                    lemma_walk_preserves::<C::ReceivedEvent, W>(cs, offs, position, pressed);
                }
                match position {
                    Some(p) => {
                        proof {
                            lemma_first_hit_props::<C::ReceivedEvent, W>(cs, offs, p, 0);
                        }
                        let mut cur: Vec2 = p;
                        while i < n
                            invariant
                                n == children.len(),
                                cs.len() == n,
                                offs == vbox_offsets::<C::ReceivedEvent, W>(cs),
                                evss == walk_events::<C::ReceivedEvent, W>(
                                    cs,
                                    offs,
                                    Some(p),
                                    pressed,
                                ),
                                forall|k: int| 0 <= k < n ==> W::wf(#[trigger] cs[k]),
                                heights_sum::<C::ReceivedEvent, W>(cs, n as int) <= DIM_CAP,
                                forall|k: int|
                                    0 <= k < n ==> (#[trigger] offs[k]).in_bounds(DIM_CAP as int),
                                forall|k: int|
                                    0 <= k < n ==> opt_pos_dispatchable(
                                        #[trigger] dispatch_position::<C::ReceivedEvent, W>(
                                            cs,
                                            offs,
                                            Some(p),
                                            k,
                                        ),
                                        W::coord_cap(),
                                    ),
                                0 <= W::coord_cap(),
                                W::coord_cap() + DIM_CAP <= COORD_CAP_MAX,
                                pos_dispatchable(p, W::coord_cap() + DIM_CAP),
                                0 <= i <= n,
                                forall|k: int|
                                    0 <= k < i ==> (#[trigger] children@[k]).model()
                                        == walk_children::<C::ReceivedEvent, W>(
                                        cs,
                                        offs,
                                        Some(p),
                                        pressed,
                                    )[k],
                                forall|k: int|
                                    i <= k < n ==> (#[trigger] children@[k]).model() == cs[k],
                                events_acc@ == tag_events(evss.take(i as int)),
                                found == (match first_hit_from::<C::ReceivedEvent, W>(
                                    cs,
                                    offs,
                                    p,
                                    0,
                                ) {
                                    Some(h) => h < i,
                                    None => false,
                                }),
                                !found ==> cur.y == p.y - heights_sum::<C::ReceivedEvent, W>(
                                    cs,
                                    i as int,
                                ) && cur.x == p.x,
                            decreases n - i,
                        {
                            proof {
                                lemma_heights_sum_mono::<C::ReceivedEvent, W>(cs, 0, i as int);
                                lemma_heights_sum_mono::<C::ReceivedEvent, W>(
                                    cs,
                                    i as int,
                                    n as int,
                                );
                                lemma_heights_sum_mono::<C::ReceivedEvent, W>(cs, i + 1, n as int);
                                lemma_first_hit_props::<C::ReceivedEvent, W>(cs, offs, p, 0);
                                lemma_first_hit_props::<C::ReceivedEvent, W>(
                                    cs,
                                    offs,
                                    p,
                                    i as int,
                                );
                                lemma_first_hit_props::<C::ReceivedEvent, W>(cs, offs, p, i + 1);
                                W::lemma_mouse_preserves_wf(
                                    cs[i as int],
                                    dispatch_position::<C::ReceivedEvent, W>(
                                        cs,
                                        offs,
                                        Some(p),
                                        i as int,
                                    ),
                                    pressed,
                                );
                            }
                            let ghost dpos = dispatch_position::<C::ReceivedEvent, W>(
                                cs,
                                offs,
                                Some(p),
                                i as int,
                            );
                            let evs: Vec<<C as Component<W>>::ReceivedEvent>;
                            if found {
                                proof {
                                    assert(dpos == None::<Vec2>);
                                }
                                evs = children[i].set_mouse_status(None, pressed);
                            } else {
                                proof {
                                    assert(cur == p.sub_spec(offs[i as int]));
                                }
                                if children[i].hit_test(cur) {
                                    proof {
                                        assert(first_hit_from::<C::ReceivedEvent, W>(
                                            cs,
                                            offs,
                                            p,
                                            i as int,
                                        ) == Some(i as int));
                                        assert(dpos == Some(cur));
                                    }
                                    evs = children[i].set_mouse_status(Some(cur), pressed);
                                    found = true;
                                } else {
                                    proof {
                                        assert(first_hit_from::<C::ReceivedEvent, W>(
                                            cs,
                                            offs,
                                            p,
                                            i as int,
                                        ) == first_hit_from::<C::ReceivedEvent, W>(
                                            cs,
                                            offs,
                                            p,
                                            i + 1,
                                        ));
                                        assert(dpos == None::<Vec2>);
                                    }
                                    evs = children[i].set_mouse_status(None, pressed);
                                    proof {
                                        W::lemma_mouse_preserves_wf(cs[i as int], dpos, pressed);
                                        assert(children@[i as int].model() == W::mouse_spec(
                                            cs[i as int],
                                            dpos,
                                            pressed,
                                        ).0);
                                    }
                                    let h = children[i].get_height();
                                    cur = Vec2 { x: cur.x, y: cur.y - h };
                                }
                            }
                            push_tagged(&mut events_acc, evs, i);
                            proof {
                                lemma_tag_events_take_step(evss, i as int);
                                assert(children@[i as int].model() == W::mouse_spec(
                                    cs[i as int],
                                    dpos,
                                    pressed,
                                ).0);
                                assert(walk_children::<C::ReceivedEvent, W>(
                                    cs,
                                    offs,
                                    Some(p),
                                    pressed,
                                )[i as int] == W::mouse_spec(cs[i as int], dpos, pressed).0);
                                assert(evs@ == evss[i as int]);
                            }
                            i = i + 1;
                        }
                        proof {
                            assert(evss.take(n as int) =~= evss);
                        }
                    },
                    None => {
                        while i < n
                            invariant
                                n == children.len(),
                                cs.len() == n,
                                offs == vbox_offsets::<C::ReceivedEvent, W>(cs),
                                evss == walk_events::<C::ReceivedEvent, W>(
                                    cs,
                                    offs,
                                    None,
                                    pressed,
                                ),
                                forall|k: int| 0 <= k < n ==> W::wf(#[trigger] cs[k]),
                                0 <= i <= n,
                                forall|k: int|
                                    0 <= k < i ==> (#[trigger] children@[k]).model()
                                        == walk_children::<C::ReceivedEvent, W>(
                                        cs,
                                        offs,
                                        None,
                                        pressed,
                                    )[k],
                                forall|k: int|
                                    i <= k < n ==> (#[trigger] children@[k]).model() == cs[k],
                                events_acc@ == tag_events(evss.take(i as int)),
                                !found,
                            decreases n - i,
                        {
                            let evs = children[i].set_mouse_status(None, pressed);
                            push_tagged(&mut events_acc, evs, i);
                            proof {
                                lemma_tag_events_take_step(evss, i as int);
                            }
                            i = i + 1;
                        }
                        proof {
                            assert(evss.take(n as int) =~= evss);
                        }
                    },
                }
                proof {
                    assert(children@.map_values(|w: W| w.model()) =~= walk_children::<
                        C::ReceivedEvent,
                        W,
                    >(cs, offs, position, pressed));
                }
            },
            Layout::PositionnedChildren(children) => {
                let ghost ps = children@.map_values(
                    |q: PositionnedChild<W>| PositionnedChildModel {
                        child: q.child.model(),
                        x: q.x,
                        y: q.y,
                    },
                );
                let ghost cs = positioned_children(ps);
                let ghost offs = positioned_offsets(ps);
                let ghost evss = walk_events::<C::ReceivedEvent, W>(cs, offs, position, pressed);
                let n = children.len();
                let mut i: usize = 0;
                proof {
                    assert(ps.len() == n);
                    assert forall|k: int| 0 <= k < n implies W::wf(#[trigger] cs[k]) && (
                    offs[k]).in_bounds(DIM_CAP as int) by {
                        assert(W::wf(ps[k].child));
                        assert(cs[k] == ps[k].child);
                        assert(offs[k] == (Vec2 { x: ps[k].x, y: ps[k].y }));
                    }
                    lemma_walk_preserves::<C::ReceivedEvent, W>(cs, offs, position, pressed);
                }
                match position {
                    Some(p) => {
                        proof {
                            lemma_first_hit_props::<C::ReceivedEvent, W>(cs, offs, p, 0);
                        }
                        while i < n
                            invariant
                                n == children.len(),
                                cs.len() == n,
                                ps.len() == n,
                                cs == positioned_children(ps),
                                offs == positioned_offsets(ps),
                                evss == walk_events::<C::ReceivedEvent, W>(
                                    cs,
                                    offs,
                                    Some(p),
                                    pressed,
                                ),
                                forall|k: int| 0 <= k < n ==> W::wf(#[trigger] cs[k]),
                                forall|k: int|
                                    0 <= k < n ==> (#[trigger] offs[k]).in_bounds(DIM_CAP as int),
                                forall|k: int|
                                    0 <= k < n ==> opt_pos_dispatchable(
                                        #[trigger] dispatch_position::<C::ReceivedEvent, W>(
                                            cs,
                                            offs,
                                            Some(p),
                                            k,
                                        ),
                                        W::coord_cap(),
                                    ),
                                0 <= W::coord_cap(),
                                W::coord_cap() + DIM_CAP <= COORD_CAP_MAX,
                                pos_dispatchable(p, W::coord_cap() + DIM_CAP),
                                0 <= i <= n,
                                forall|k: int|
                                    0 <= k < i ==> (#[trigger] children@[k]).child.model()
                                        == walk_children::<C::ReceivedEvent, W>(
                                        cs,
                                        offs,
                                        Some(p),
                                        pressed,
                                    )[k] && children@[k].x == ps[k].x && children@[k].y
                                        == ps[k].y,
                                forall|k: int|
                                    i <= k < n ==> (#[trigger] children@[k]).child.model()
                                        == cs[k] && children@[k].x == ps[k].x && children@[k].y
                                        == ps[k].y,
                                events_acc@ == tag_events(evss.take(i as int)),
                                found == (match first_hit_from::<C::ReceivedEvent, W>(
                                    cs,
                                    offs,
                                    p,
                                    0,
                                ) {
                                    Some(h) => h < i,
                                    None => false,
                                }),
                            decreases n - i,
                        {
                            proof {
                                lemma_first_hit_props::<C::ReceivedEvent, W>(cs, offs, p, 0);
                                lemma_first_hit_props::<C::ReceivedEvent, W>(
                                    cs,
                                    offs,
                                    p,
                                    i as int,
                                );
                                lemma_first_hit_props::<C::ReceivedEvent, W>(cs, offs, p, i + 1);
                                W::lemma_mouse_preserves_wf(
                                    cs[i as int],
                                    dispatch_position::<C::ReceivedEvent, W>(
                                        cs,
                                        offs,
                                        Some(p),
                                        i as int,
                                    ),
                                    pressed,
                                );
                            }
                            let ghost dpos = dispatch_position::<C::ReceivedEvent, W>(
                                cs,
                                offs,
                                Some(p),
                                i as int,
                            );
                            let evs: Vec<<C as Component<W>>::ReceivedEvent>;
                            if found {
                                proof {
                                    assert(dpos == None::<Vec2>);
                                }
                                evs = children[i].child.set_mouse_status(None, pressed);
                            } else {
                                let local = Vec2 {
                                    x: p.x - children[i].x,
                                    y: p.y - children[i].y,
                                };
                                proof {
                                    assert(local == p.sub_spec(offs[i as int]));
                                }
                                if children[i].child.hit_test(local) {
                                    proof {
                                        assert(first_hit_from::<C::ReceivedEvent, W>(
                                            cs,
                                            offs,
                                            p,
                                            i as int,
                                        ) == Some(i as int));
                                        assert(dpos == Some(local));
                                    }
                                    evs = children[i].child.set_mouse_status(
                                        Some(local),
                                        pressed,
                                    );
                                    found = true;
                                } else {
                                    proof {
                                        assert(first_hit_from::<C::ReceivedEvent, W>(
                                            cs,
                                            offs,
                                            p,
                                            i as int,
                                        ) == first_hit_from::<C::ReceivedEvent, W>(
                                            cs,
                                            offs,
                                            p,
                                            i + 1,
                                        ));
                                        assert(dpos == None::<Vec2>);
                                    }
                                    evs = children[i].child.set_mouse_status(None, pressed);
                                }
                            }
                            push_tagged(&mut events_acc, evs, i);
                            proof {
                                lemma_tag_events_take_step(evss, i as int);
                                assert(children@[i as int].child.model() == W::mouse_spec(
                                    cs[i as int],
                                    dpos,
                                    pressed,
                                ).0);
                                assert(walk_children::<C::ReceivedEvent, W>(
                                    cs,
                                    offs,
                                    Some(p),
                                    pressed,
                                )[i as int] == W::mouse_spec(cs[i as int], dpos, pressed).0);
                                assert(evs@ == evss[i as int]);
                            }
                            i = i + 1;
                        }
                        proof {
                            assert(evss.take(n as int) =~= evss);
                        }
                    },
                    None => {
                        while i < n
                            invariant
                                n == children.len(),
                                cs.len() == n,
                                ps.len() == n,
                                cs == positioned_children(ps),
                                offs == positioned_offsets(ps),
                                evss == walk_events::<C::ReceivedEvent, W>(
                                    cs,
                                    offs,
                                    None,
                                    pressed,
                                ),
                                forall|k: int| 0 <= k < n ==> W::wf(#[trigger] cs[k]),
                                0 <= i <= n,
                                forall|k: int|
                                    0 <= k < i ==> (#[trigger] children@[k]).child.model()
                                        == walk_children::<C::ReceivedEvent, W>(
                                        cs,
                                        offs,
                                        None,
                                        pressed,
                                    )[k] && children@[k].x == ps[k].x && children@[k].y
                                        == ps[k].y,
                                forall|k: int|
                                    i <= k < n ==> (#[trigger] children@[k]).child.model()
                                        == cs[k] && children@[k].x == ps[k].x && children@[k].y
                                        == ps[k].y,
                                events_acc@ == tag_events(evss.take(i as int)),
                                !found,
                            decreases n - i,
                        {
                            let evs = children[i].child.set_mouse_status(None, pressed);
                            push_tagged(&mut events_acc, evs, i);
                            proof {
                                lemma_tag_events_take_step(evss, i as int);
                            }
                            i = i + 1;
                        }
                        proof {
                            assert(evss.take(n as int) =~= evss);
                        }
                    },
                }
                proof {
                    assert(children@.map_values(
                        |q: PositionnedChild<W>| PositionnedChildModel {
                            child: q.child.model(),
                            x: q.x,
                            y: q.y,
                        },
                    ) =~= layout_walk::<C::ReceivedEvent, W>(
                        m0.layout,
                        position,
                        pressed,
                    ).0->PositionnedChildren_0);
                }
            },
        }
        proof {
            assert(layout_model::<C::ReceivedEvent, W>(self.layout) == walk.0);
            assert(events_acc@ == tag_events(walk.1));
            assert(found == (match position {
                None => false,
                Some(p) => layout_hit::<C::ReceivedEvent, W>(m0.layout, p),
            }));
        }
        let status: HoveredStatus = match position {
            None => HoveredStatus::NotHovered,
            Some(p) => {
                if found {
                    HoveredStatus::ChildHovered
                } else {
                    match self.component.get_bounding_box() {
                        Some(bb) => {
                            if bb.0.x <= p.x && p.x < bb.1.x && bb.0.y <= p.y && p.y < bb.1.y {
                                HoveredStatus::Hovered
                            } else {
                                HoveredStatus::NotHovered
                            }
                        },
                        None => HoveredStatus::NotHovered,
                    }
                }
            },
        };
        proof {
            assert(status == hover_status(position, found, C::bbox_spec(m0.component)));
        }
        self.component.set_hovered_status(status);
        let ghost cm1 = C::hovered_spec(m0.component, status);
        let ghost foldr = handle_fold::<W, C>(cm1, walk.0, tag_events(walk.1));
        proof {
            C::lemma_hovered_preserves_wf(m0.component, status);
        }
        let mut out: Vec<<C as Component<W>>::EmittedEvent> = Vec::new();
        while events_acc.len() > 0
            invariant
                C::wf(self.component.model()),
                layout_wf::<C::ReceivedEvent, W>(layout_model::<C::ReceivedEvent, W>(self.layout)),
                foldr == handle_fold::<W, C>(cm1, walk.0, tag_events(walk.1)),
                foldr.0 == handle_fold::<W, C>(
                    self.component.model(),
                    layout_model::<C::ReceivedEvent, W>(self.layout),
                    events_acc@,
                ).0,
                foldr.1 == handle_fold::<W, C>(
                    self.component.model(),
                    layout_model::<C::ReceivedEvent, W>(self.layout),
                    events_acc@,
                ).1,
                foldr.2 == out@ + handle_fold::<W, C>(
                    self.component.model(),
                    layout_model::<C::ReceivedEvent, W>(self.layout),
                    events_acc@,
                ).2,
            decreases events_acc.len(),
        {
            let ghost evs_pre = events_acc@;
            let ghost cm_pre = self.component.model();
            let ghost lm_pre = layout_model::<C::ReceivedEvent, W>(self.layout);
            let (id, ev) = events_acc.remove(0);
            proof {
                assert((id, ev) == evs_pre[0]);
                assert(events_acc@ =~= evs_pre.drop_first());
                C::lemma_handle_preserves_wf(cm_pre, lm_pre, id, ev);
            }
            let handled = self.component.handle_child_event(&mut self.layout, id, ev);
            match handled {
                Some(e) => {
                    out.push(e);
                },
                None => {},
            }
        }
        proof {
            assert(foldr.0 == self.component.model());
            assert(foldr.1 == layout_model::<C::ReceivedEvent, W>(self.layout));
            assert(foldr.2 =~= out@);
        }
        out
    }

    fn hit_test(&self, position: Vec2) -> (r: bool) {
        match &self.layout {
            Layout::SingleChild(child) => child.hit_test(position),
            Layout::HorizontalBox(children) => {
                let ghost cs = children@.map_values(|w: W| w.model());
                let ghost offs = hbox_offsets::<C::ReceivedEvent, W>(cs);
                let n = children.len();
                let mut cur: Vec2 = position;
                let mut i: usize = 0;
                let mut res: bool = false;
                proof {
                    lemma_hbox_offsets_bounds::<C::ReceivedEvent, W>(cs);
                }
                while i < n && !res
                    invariant
                        n == children.len(),
                        cs == children@.map_values(|w: W| w.model()),
                        offs == hbox_offsets::<C::ReceivedEvent, W>(cs),
                        forall|k: int| 0 <= k < n ==> W::wf(#[trigger] cs[k]),
                        widths_sum::<C::ReceivedEvent, W>(cs, n as int) <= DIM_CAP,
                        forall|k: int|
                            0 <= k < n ==> (#[trigger] offs[k]).in_bounds(DIM_CAP as int),
                        0 <= W::coord_cap(),
                        W::coord_cap() + DIM_CAP <= COORD_CAP_MAX,
                        pos_dispatchable(position, W::coord_cap() + DIM_CAP),
                        0 <= i <= n,
                        !res ==> cur.x == position.x - widths_sum::<C::ReceivedEvent, W>(
                            cs,
                            i as int,
                        ) && cur.y == position.y,
                        !res ==> first_hit_from::<C::ReceivedEvent, W>(cs, offs, position, 0)
                            == first_hit_from::<C::ReceivedEvent, W>(cs, offs, position, i as int),
                        res ==> first_hit_from::<C::ReceivedEvent, W>(
                            cs,
                            offs,
                            position,
                            0,
                        ) is Some,
                    decreases n - i,
                {
                    proof {
                        lemma_widths_sum_mono::<C::ReceivedEvent, W>(cs, 0, i as int);
                        lemma_widths_sum_mono::<C::ReceivedEvent, W>(cs, i as int, n as int);
                        lemma_widths_sum_mono::<C::ReceivedEvent, W>(cs, i + 1, n as int);
                        assert(cur == position.sub_spec(offs[i as int]));
                    }
                    if children[i].hit_test(cur) {
                        res = true;
                    } else {
                        let w = children[i].get_width();
                        cur = Vec2 { x: cur.x - w, y: cur.y };
                    }
                    i = i + 1;
                }
                res
            },
            Layout::VerticalBox(children) => {
                let ghost cs = children@.map_values(|w: W| w.model());
                let ghost offs = vbox_offsets::<C::ReceivedEvent, W>(cs);
                let n = children.len();
                let mut cur: Vec2 = position;
                let mut i: usize = 0;
                let mut res: bool = false;
                proof {
                    lemma_vbox_offsets_bounds::<C::ReceivedEvent, W>(cs);
                }
                while i < n && !res
                    invariant
                        n == children.len(),
                        cs == children@.map_values(|w: W| w.model()),
                        offs == vbox_offsets::<C::ReceivedEvent, W>(cs),
                        forall|k: int| 0 <= k < n ==> W::wf(#[trigger] cs[k]),
                        heights_sum::<C::ReceivedEvent, W>(cs, n as int) <= DIM_CAP,
                        forall|k: int|
                            0 <= k < n ==> (#[trigger] offs[k]).in_bounds(DIM_CAP as int),
                        0 <= W::coord_cap(),
                        W::coord_cap() + DIM_CAP <= COORD_CAP_MAX,
                        pos_dispatchable(position, W::coord_cap() + DIM_CAP),
                        0 <= i <= n,
                        !res ==> cur.y == position.y - heights_sum::<C::ReceivedEvent, W>(
                            cs,
                            i as int,
                        ) && cur.x == position.x,
                        !res ==> first_hit_from::<C::ReceivedEvent, W>(cs, offs, position, 0)
                            == first_hit_from::<C::ReceivedEvent, W>(cs, offs, position, i as int),
                        res ==> first_hit_from::<C::ReceivedEvent, W>(
                            cs,
                            offs,
                            position,
                            0,
                        ) is Some,
                    decreases n - i,
                {
                    proof {
                        lemma_heights_sum_mono::<C::ReceivedEvent, W>(cs, 0, i as int);
                        lemma_heights_sum_mono::<C::ReceivedEvent, W>(cs, i as int, n as int);
                        lemma_heights_sum_mono::<C::ReceivedEvent, W>(cs, i + 1, n as int);
                        assert(cur == position.sub_spec(offs[i as int]));
                    }
                    if children[i].hit_test(cur) {
                        res = true;
                    } else {
                        let h = children[i].get_height();
                        cur = Vec2 { x: cur.x, y: cur.y - h };
                    }
                    i = i + 1;
                }
                res
            },
            Layout::PositionnedChildren(children) => {
                let ghost ps = children@.map_values(
                    |q: PositionnedChild<W>| PositionnedChildModel {
                        child: q.child.model(),
                        x: q.x,
                        y: q.y,
                    },
                );
                let ghost cs = positioned_children(ps);
                let ghost offs = positioned_offsets(ps);
                let n = children.len();
                let mut i: usize = 0;
                let mut res: bool = false;
                proof {
                    assert(ps.len() == n);
                    assert(layout_wf::<C::ReceivedEvent, W>(LayoutModel::PositionnedChildren(ps)));
                    assert forall|k: int| 0 <= k < n implies W::wf(#[trigger] cs[k]) && (
                    offs[k]).in_bounds(DIM_CAP as int) by {
                        assert(W::wf(ps[k].child));
                        assert(cs[k] == ps[k].child);
                        assert(offs[k] == (Vec2 { x: ps[k].x, y: ps[k].y }));
                    }
                }
                while i < n && !res
                    invariant
                        n == children.len(),
                        ps == children@.map_values(
                            |q: PositionnedChild<W>| PositionnedChildModel {
                                child: q.child.model(),
                                x: q.x,
                                y: q.y,
                            },
                        ),
                        cs == positioned_children(ps),
                        offs == positioned_offsets(ps),
                        forall|k: int| 0 <= k < n ==> W::wf(#[trigger] cs[k]),
                        forall|k: int|
                            0 <= k < n ==> (#[trigger] offs[k]).in_bounds(DIM_CAP as int),
                        0 <= W::coord_cap(),
                        W::coord_cap() + DIM_CAP <= COORD_CAP_MAX,
                        pos_dispatchable(position, W::coord_cap() + DIM_CAP),
                        0 <= i <= n,
                        !res ==> first_hit_from::<C::ReceivedEvent, W>(cs, offs, position, 0)
                            == first_hit_from::<C::ReceivedEvent, W>(cs, offs, position, i as int),
                        res ==> first_hit_from::<C::ReceivedEvent, W>(
                            cs,
                            offs,
                            position,
                            0,
                        ) is Some,
                    decreases n - i,
                {
                    let local = Vec2 { x: position.x - children[i].x, y: position.y - children[i].y };
                    proof {
                        assert(local == position.sub_spec(offs[i as int]));
                    }
                    if children[i].child.hit_test(local) {
                        res = true;
                    }
                    i = i + 1;
                }
                res
            },
        }
    }

    fn get_width(&self) -> (r: i64) {
        match &self.layout {
            Layout::SingleChild(child) => child.get_width(),
            Layout::HorizontalBox(children) => {
                let ghost cs = children@.map_values(|w: W| w.model());
                let n = children.len();
                let mut total: i64 = 0;
                let mut i: usize = 0;
                while i < n
                    invariant
                        n == children.len(),
                        cs == children@.map_values(|w: W| w.model()),
                        forall|k: int| 0 <= k < n ==> W::wf(#[trigger] cs[k]),
                        widths_sum::<C::ReceivedEvent, W>(cs, n as int) <= DIM_CAP,
                        0 <= i <= n,
                        total == widths_sum::<C::ReceivedEvent, W>(cs, i as int),
                    decreases n - i,
                {
                    proof {
                        lemma_widths_sum_mono::<C::ReceivedEvent, W>(cs, 0, i as int);
                        lemma_widths_sum_mono::<C::ReceivedEvent, W>(cs, i + 1, n as int);
                        assert(cs[i as int] == children@[i as int].model());
                    }
                    let w = children[i].get_width();
                    total = total + w;
                    i = i + 1;
                }
                total
            },
            Layout::VerticalBox(children) => {
                let ghost cs = children@.map_values(|w: W| w.model());
                let n = children.len();
                let mut best: i64 = 0;
                let mut i: usize = 0;
                while i < n
                    invariant
                        n == children.len(),
                        cs == children@.map_values(|w: W| w.model()),
                        forall|k: int| 0 <= k < n ==> W::wf(#[trigger] cs[k]),
                        0 <= i <= n,
                        best == widths_max::<C::ReceivedEvent, W>(cs, i as int),
                    decreases n - i,
                {
                    proof {
                        assert(cs[i as int] == children@[i as int].model());
                    }
                    let w = children[i].get_width();
                    if w > best {
                        best = w;
                    }
                    i = i + 1;
                }
                best
            },
            Layout::PositionnedChildren(_) => 0,
        }
    }

    fn get_height(&self) -> (r: i64) {
        match &self.layout {
            Layout::SingleChild(child) => child.get_height(),
            Layout::HorizontalBox(children) => {
                let ghost cs = children@.map_values(|w: W| w.model());
                let n = children.len();
                let mut best: i64 = 0;
                let mut i: usize = 0;
                while i < n
                    invariant
                        n == children.len(),
                        cs == children@.map_values(|w: W| w.model()),
                        forall|k: int| 0 <= k < n ==> W::wf(#[trigger] cs[k]),
                        0 <= i <= n,
                        best == heights_max::<C::ReceivedEvent, W>(cs, i as int),
                    decreases n - i,
                {
                    proof {
                        assert(cs[i as int] == children@[i as int].model());
                    }
                    let h = children[i].get_height();
                    if h > best {
                        best = h;
                    }
                    i = i + 1;
                }
                best
            },
            Layout::VerticalBox(children) => {
                let ghost cs = children@.map_values(|w: W| w.model());
                let n = children.len();
                let mut total: i64 = 0;
                let mut i: usize = 0;
                while i < n
                    invariant
                        n == children.len(),
                        cs == children@.map_values(|w: W| w.model()),
                        forall|k: int| 0 <= k < n ==> W::wf(#[trigger] cs[k]),
                        heights_sum::<C::ReceivedEvent, W>(cs, n as int) <= DIM_CAP,
                        0 <= i <= n,
                        total == heights_sum::<C::ReceivedEvent, W>(cs, i as int),
                    decreases n - i,
                {
                    proof {
                        lemma_heights_sum_mono::<C::ReceivedEvent, W>(cs, 0, i as int);
                        lemma_heights_sum_mono::<C::ReceivedEvent, W>(cs, i + 1, n as int);
                        assert(cs[i as int] == children@[i as int].model());
                    }
                    let h = children[i].get_height();
                    total = total + h;
                    i = i + 1;
                }
                total
            },
            Layout::PositionnedChildren(_) => 0,
        }
    }
}

} // verus!
