use ui::predefined::{ButtonComponent, PanelComponent, PressedEvent, TextComponent};
use ui::predefined::button::BUTTON_SIZE;
use ui::shape::{Font, Vec2};
use ui::{Layout, Node, PositionnedChild, RawComponent};

type ButtonRow = Node<PanelComponent<PressedEvent>, ButtonComponent>;

fn button_row(n: usize) -> ButtonRow {
    let mut children: Vec<ButtonComponent> = Vec::new();
    for _ in 0..n {
        children.push(ButtonComponent::default());
    }
    Node {
        component: PanelComponent::new(),
        layout: Layout::HorizontalBox(children),
    }
}

fn hovered_flags(row: &ButtonRow) -> Vec<bool> {
    match &row.layout {
        Layout::HorizontalBox(children) => children.iter().map(|b| b.hovered).collect(),
        _ => panic!("expected a horizontal box"),
    }
}

#[test]
fn first_hit_wins_dispatches_to_exactly_one_child() {
    for pressed in [false, true] {
        let mut row = button_row(3);
        row.set_mouse_status(Some(Vec2 { x: 150_000, y: 50_000 }), pressed);
        assert_eq!(hovered_flags(&row), vec![false, true, false]);
    }
}

#[test]
fn pointer_in_first_child_leaves_later_children_alone() {
    let mut row = button_row(3);
    row.set_mouse_status(Some(Vec2 { x: 1, y: 1 }), false);
    assert_eq!(hovered_flags(&row), vec![true, false, false]);
}

#[test]
fn no_position_dispatches_none_to_every_child() {
    let mut row = button_row(3);
    row.set_mouse_status(Some(Vec2 { x: 150_000, y: 50_000 }), false);
    row.set_mouse_status(None, false);
    assert_eq!(hovered_flags(&row), vec![false, false, false]);
}

#[test]
fn pointer_outside_every_child_hovers_none() {
    let mut row = button_row(3);
    row.set_mouse_status(Some(Vec2 { x: 3 * BUTTON_SIZE + 5, y: 1 }), false);
    assert_eq!(hovered_flags(&row), vec![false, false, false]);
}

#[test]
fn vbox_dispatches_by_running_height() {
    let mut column: ButtonRow = Node {
        component: PanelComponent::new(),
        layout: Layout::VerticalBox(vec![
            ButtonComponent::default(),
            ButtonComponent::default(),
            ButtonComponent::default(),
        ]),
    };
    column.set_mouse_status(Some(Vec2 { x: 50_000, y: 150_000 }), false);
    match &column.layout {
        Layout::VerticalBox(children) => {
            assert!(!children[0].hovered);
            assert!(children[1].hovered);
            assert!(!children[2].hovered);
        }
        _ => panic!("expected a vertical box"),
    }
}

#[test]
fn positioned_children_use_their_own_offsets() {
    let mut overlay: ButtonRow = Node {
        component: PanelComponent::new(),
        layout: Layout::PositionnedChildren(vec![
            PositionnedChild { child: ButtonComponent::default(), x: 0, y: 0 },
            PositionnedChild { child: ButtonComponent::default(), x: 500_000, y: 0 },
        ]),
    };
    overlay.set_mouse_status(Some(Vec2 { x: 550_000, y: 1 }), false);
    match &overlay.layout {
        Layout::PositionnedChildren(children) => {
            assert!(!children[0].child.hovered);
            assert!(children[1].child.hovered);
        }
        _ => panic!("expected positioned children"),
    }
}

#[test]
fn overlapping_positioned_children_go_to_the_first_in_list_order() {
    let mut overlay: ButtonRow = Node {
        component: PanelComponent::new(),
        layout: Layout::PositionnedChildren(vec![
            PositionnedChild { child: ButtonComponent::default(), x: 0, y: 0 },
            PositionnedChild { child: ButtonComponent::default(), x: 0, y: 0 },
        ]),
    };
    overlay.set_mouse_status(Some(Vec2 { x: 10, y: 10 }), false);
    match &overlay.layout {
        Layout::PositionnedChildren(children) => {
            assert!(children[0].child.hovered);
            assert!(!children[1].child.hovered);
        }
        _ => panic!("expected positioned children"),
    }
}

#[test]
fn button_emits_on_release_after_armed_press() {
    let mut b = ButtonComponent::default();
    let over = Some(Vec2 { x: 10, y: 10 });
    assert!(b.set_mouse_status(over, false).is_empty());
    assert!(b.set_mouse_status(over, true).is_empty());
    let events = b.set_mouse_status(over, false);
    assert_eq!(events.len(), 1);
    assert_eq!(events[0], PressedEvent);
}

#[test]
fn button_does_not_emit_without_arming() {
    let mut b = ButtonComponent::default();
    let over = Some(Vec2 { x: 10, y: 10 });
    // Pressed before the button ever saw the pointer released over it.
    assert!(b.set_mouse_status(over, true).is_empty());
    assert!(b.set_mouse_status(over, false).is_empty());
}

#[test]
fn leaving_the_button_disarms_it() {
    let mut b = ButtonComponent::default();
    let over = Some(Vec2 { x: 10, y: 10 });
    assert!(b.set_mouse_status(over, false).is_empty());
    assert!(b.set_mouse_status(over, true).is_empty());
    assert!(b.set_mouse_status(None, true).is_empty());
    // The release no longer counts: the pointer left while pressed.
    assert!(b.set_mouse_status(over, false).is_empty());
}

#[test]
fn panel_absorbs_child_events() {
    let mut row = button_row(1);
    let over = Some(Vec2 { x: 10, y: 10 });
    assert!(row.set_mouse_status(over, false).is_empty());
    assert!(row.set_mouse_status(over, true).is_empty());
    // The button reports its click to the panel, which absorbs it.
    assert!(row.set_mouse_status(over, false).is_empty());
    match &row.layout {
        Layout::HorizontalBox(children) => assert!(children[0].hovered),
        _ => panic!("expected a horizontal box"),
    }
}

#[test]
fn panel_is_child_hovered_when_a_child_is_under_the_pointer() {
    let mut row = button_row(1);
    row.set_mouse_status(Some(Vec2 { x: 10, y: 10 }), false);
    assert_eq!(row.component.hovered_status, ui::HoveredStatus::ChildHovered);
    row.set_mouse_status(None, false);
    assert_eq!(row.component.hovered_status, ui::HoveredStatus::NotHovered);
}

#[test]
fn panel_with_bounding_box_is_hovered_beside_its_children() {
    let mut row: ButtonRow = Node {
        component: PanelComponent::with_bounding_box(
            Vec2 { x: 0, y: 0 },
            Vec2 { x: 500_000, y: 500_000 },
        ),
        layout: Layout::HorizontalBox(vec![ButtonComponent::default()]),
    };
    // Inside the box but outside the button: the panel itself is hovered.
    row.set_mouse_status(Some(Vec2 { x: 300_000, y: 300_000 }), false);
    assert_eq!(row.component.hovered_status, ui::HoveredStatus::Hovered);
    // Over the button: a child is hovered instead.
    row.set_mouse_status(Some(Vec2 { x: 10, y: 10 }), false);
    assert_eq!(row.component.hovered_status, ui::HoveredStatus::ChildHovered);
    // Outside both: not hovered.
    row.set_mouse_status(Some(Vec2 { x: 700_000, y: 10 }), false);
    assert_eq!(row.component.hovered_status, ui::HoveredStatus::NotHovered);
}

#[test]
fn text_and_input_ignore_the_pointer() {
    let mut t = TextComponent::new(String::from("hello"), Font::Default, 10);
    let events: Vec<PressedEvent> =
        RawComponent::<PressedEvent>::set_mouse_status(&mut t, Some(Vec2 { x: 1, y: 1 }), true);
    assert!(events.is_empty());
    let mut i = ui::predefined::InputComponent::new(String::from("hi"), Font::Default, 10);
    let events: Vec<PressedEvent> =
        RawComponent::<PressedEvent>::set_mouse_status(&mut i, Some(Vec2 { x: 1, y: 1 }), true);
    assert!(events.is_empty());
    assert_eq!(i.get_text(), "hi");
}
