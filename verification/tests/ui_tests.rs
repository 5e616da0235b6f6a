use ui::predefined::{ButtonComponent, PanelComponent, PressedEvent, TextComponent};
use ui::predefined::button::BUTTON_SIZE;
use ui::shape::{Color, Font, Shape, Vec2, LOGICAL_ONE};
use ui::ui::logical_position;
use ui::{Layout, Node, RawComponent, Ui};

#[test]
fn viewport_center_maps_to_logical_origin() {
    let p = logical_position(Some((400, 300)), (800, 600));
    assert_eq!(p, Vec2 { x: 0, y: 0 });
}

#[test]
fn viewport_corners_map_to_logical_corners() {
    assert_eq!(
        logical_position(Some((0, 0)), (800, 600)),
        Vec2 { x: -LOGICAL_ONE, y: LOGICAL_ONE }
    );
    assert_eq!(
        logical_position(Some((800, 600)), (800, 600)),
        Vec2 { x: LOGICAL_ONE, y: -LOGICAL_ONE }
    );
}

#[test]
fn absent_pointer_maps_to_bottom_left_sentinel() {
    assert_eq!(
        logical_position(None, (800, 600)),
        Vec2 { x: -LOGICAL_ONE, y: -LOGICAL_ONE }
    );
}

#[test]
fn new_ui_computes_the_first_frame() {
    let ui: Ui<ButtonComponent, PressedEvent> =
        Ui::new(ButtonComponent::default(), (800, 600));
    let shapes = ui.draw();
    assert_eq!(shapes.len(), 1);
    match &shapes[0] {
        Shape::Rectangle { from, to, .. } => {
            assert_eq!(*from, Vec2 { x: 0, y: 0 });
            assert_eq!(*to, Vec2 { x: BUTTON_SIZE, y: BUTTON_SIZE });
        }
        other => panic!("expected a rectangle, got {:?}", other),
    }
}

#[test]
fn moving_the_pointer_over_the_button_dims_its_face() {
    let mut ui: Ui<Node<PanelComponent<PressedEvent>, ButtonComponent>, PressedEvent> = Ui::new(
        Node {
            component: PanelComponent::new(),
            layout: Layout::HorizontalBox(vec![ButtonComponent::default()]),
        },
        (800, 600),
    );
    // Pixel (410, 290) maps to logical (25_000, 33_334), inside the button.
    ui.set_mouse_position(Some((410, 290)));
    match &ui.draw()[0] {
        Shape::Rectangle { color, .. } => {
            assert_eq!(
                *color,
                Color { r: u16::MAX / 5 * 4, g: u16::MAX / 5 * 4, b: 0 }
            );
        }
        other => panic!("expected a rectangle, got {:?}", other),
    }
    // Leaving the window restores the plain face: the absent pointer
    // becomes a far-off sentinel that hits no child.
    ui.set_mouse_position(None);
    match &ui.draw()[0] {
        Shape::Rectangle { color, .. } => {
            assert_eq!(*color, Color { r: u16::MAX, g: u16::MAX, b: 0 });
        }
        other => panic!("expected a rectangle, got {:?}", other),
    }
}

#[test]
fn scoped_mutations_batch_into_one_recomputation() {
    let ui: Ui<TextComponent, ()> = Ui::new(
        TextComponent::new(String::from("start"), Font::Default, 10),
        (800, 600),
    );
    let mut guard = ui.get_mut_main_component();
    guard.component().set_text(String::from("a"));
    guard.component().set_em(20);
    guard.component().set_text(String::from("ab"));
    let ui = guard.release();
    // The frame reflects all three mutations at once.
    assert_eq!(
        ui.draw()[0],
        Shape::Text {
            text: String::from("ab"),
            font: Font::Default,
            bottom_left: Vec2 { x: 0, y: 0 },
            em: 20,
        }
    );
}

#[test]
fn resizing_the_viewport_remaps_the_pointer() {
    let mut ui: Ui<Node<PanelComponent<PressedEvent>, ButtonComponent>, PressedEvent> = Ui::new(
        Node {
            component: PanelComponent::new(),
            layout: Layout::HorizontalBox(vec![ButtonComponent::default()]),
        },
        (800, 600),
    );
    let hovered = |ui: &Ui<Node<PanelComponent<PressedEvent>, ButtonComponent>, PressedEvent>| {
        match &ui.main_component.layout {
            Layout::HorizontalBox(children) => children[0].hovered,
            _ => panic!("expected a horizontal box"),
        }
    };
    // At 800x600, pixel (700, 300) maps to logical x 750_000: no hover.
    ui.set_mouse_position(Some((700, 300)));
    assert!(!hovered(&ui));
    // At 1400x600 the same pixel maps to the button's left edge: hover.
    ui.set_viewport((1400, 600));
    assert!(hovered(&ui));
}

#[test]
fn click_cycle_through_the_ui_reaches_the_button() {
    let mut ui: Ui<Node<PanelComponent<PressedEvent>, ButtonComponent>, PressedEvent> = Ui::new(
        Node {
            component: PanelComponent::new(),
            layout: Layout::HorizontalBox(vec![ButtonComponent::default()]),
        },
        (800, 600),
    );
    ui.set_mouse_position(Some((410, 290)));
    ui.set_mouse_pressed(true);
    ui.set_mouse_pressed(false);
    match &ui.main_component.layout {
        Layout::HorizontalBox(children) => assert!(children[0].hovered),
        _ => panic!("expected a horizontal box"),
    }
}
