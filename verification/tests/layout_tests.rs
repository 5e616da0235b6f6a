use ui::predefined::{ButtonComponent, PanelComponent, PressedEvent, TextComponent};
use ui::predefined::button::BUTTON_SIZE;
use ui::shape::{Color, Font, Shape, Vec2};
use ui::{Layout, Node, PositionnedChild, RawComponent};

type ButtonRow = Node<PanelComponent<PressedEvent>, ButtonComponent>;
type TextRow = Node<PanelComponent<()>, TextComponent>;

fn button_row(n: usize) -> ButtonRow {
    let mut children: Vec<ButtonComponent> = Vec::new();
    for _ in 0..n {
        children.push(ButtonComponent::default());
    }
    Node {
        component: PanelComponent::new(),
        layout: Layout::HorizontalBox(children),
    }
}

fn text(s: &str, em: i64) -> TextComponent {
    TextComponent::new(String::from(s), Font::Default, em)
}

#[test]
fn hbox_width_is_sum_of_children_widths() {
    let row = button_row(3);
    assert_eq!(row.get_width(), 3 * BUTTON_SIZE);
    assert_eq!(row.get_height(), BUTTON_SIZE);
}

#[test]
fn hbox_width_adds_unequal_widths() {
    let row: TextRow = Node {
        component: PanelComponent::new(),
        layout: Layout::HorizontalBox(vec![text("ab", 10), text("x", 30), text("abcd", 5)]),
    };
    // widths: 2*10 + 1*30 + 4*5 = 70; height: the tallest em.
    assert_eq!(row.get_width(), 70);
    assert_eq!(row.get_height(), 30);
}

#[test]
fn vbox_height_is_sum_and_width_is_max() {
    let column: TextRow = Node {
        component: PanelComponent::new(),
        layout: Layout::VerticalBox(vec![text("ab", 10), text("x", 30), text("abcd", 5)]),
    };
    assert_eq!(column.get_height(), 45);
    assert_eq!(column.get_width(), 30);
}

#[test]
fn empty_box_has_zero_extent_and_no_hit() {
    let mut empty: ButtonRow = Node {
        component: PanelComponent::new(),
        layout: Layout::HorizontalBox(Vec::new()),
    };
    assert_eq!(empty.get_width(), 0);
    assert_eq!(empty.get_height(), 0);
    assert!(!empty.hit_test(Vec2 { x: 0, y: 0 }));
    assert!(empty.set_mouse_status(Some(Vec2 { x: 0, y: 0 }), true).is_empty());
}

#[test]
fn single_child_passes_extent_through() {
    let one: ButtonRow = Node {
        component: PanelComponent::new(),
        layout: Layout::SingleChild(Box::new(ButtonComponent::default())),
    };
    assert_eq!(one.get_width(), BUTTON_SIZE);
    assert_eq!(one.get_height(), BUTTON_SIZE);
}

#[test]
fn positioned_children_do_not_count_toward_extent() {
    let overlay: ButtonRow = Node {
        component: PanelComponent::new(),
        layout: Layout::PositionnedChildren(vec![PositionnedChild {
            child: ButtonComponent::default(),
            x: 500,
            y: 600,
        }]),
    };
    assert_eq!(overlay.get_width(), 0);
    assert_eq!(overlay.get_height(), 0);
}

#[test]
fn hbox_render_translates_by_running_width() {
    let row = button_row(2);
    let shapes = row.render();
    assert_eq!(shapes.len(), 2);
    match &shapes[0] {
        Shape::Rectangle { from, to, .. } => {
            assert_eq!(*from, Vec2 { x: 0, y: 0 });
            assert_eq!(*to, Vec2 { x: BUTTON_SIZE, y: BUTTON_SIZE });
        }
        other => panic!("expected a rectangle, got {:?}", other),
    }
    match &shapes[1] {
        Shape::Rectangle { from, to, .. } => {
            assert_eq!(*from, Vec2 { x: BUTTON_SIZE, y: 0 });
            assert_eq!(*to, Vec2 { x: 2 * BUTTON_SIZE, y: BUTTON_SIZE });
        }
        other => panic!("expected a rectangle, got {:?}", other),
    }
}

#[test]
fn vbox_render_translates_by_running_height() {
    let column: ButtonRow = Node {
        component: PanelComponent::new(),
        layout: Layout::VerticalBox(vec![
            ButtonComponent::default(),
            ButtonComponent::default(),
        ]),
    };
    let shapes = column.render();
    assert_eq!(shapes.len(), 2);
    match &shapes[1] {
        Shape::Rectangle { from, to, .. } => {
            assert_eq!(*from, Vec2 { x: 0, y: BUTTON_SIZE });
            assert_eq!(*to, Vec2 { x: BUTTON_SIZE, y: 2 * BUTTON_SIZE });
        }
        other => panic!("expected a rectangle, got {:?}", other),
    }
}

#[test]
fn positioned_render_translates_by_fixed_offset() {
    let overlay: ButtonRow = Node {
        component: PanelComponent::new(),
        layout: Layout::PositionnedChildren(vec![PositionnedChild {
            child: ButtonComponent::default(),
            x: 700,
            y: -50,
        }]),
    };
    let shapes = overlay.render();
    assert_eq!(shapes.len(), 1);
    match &shapes[0] {
        Shape::Rectangle { from, to, .. } => {
            assert_eq!(*from, Vec2 { x: 700, y: -50 });
            assert_eq!(*to, Vec2 { x: BUTTON_SIZE + 700, y: BUTTON_SIZE - 50 });
        }
        other => panic!("expected a rectangle, got {:?}", other),
    }
}

#[test]
fn render_and_hit_test_agree_on_the_drawn_rectangle() {
    let mut button = ButtonComponent::default();
    let shapes = RawComponent::<PressedEvent>::render(&button);
    let (from, to) = match &shapes[0] {
        Shape::Rectangle { from, to, .. } => (*from, *to),
        other => panic!("expected a rectangle, got {:?}", other),
    };
    let inside = Vec2 { x: from.x + 2, y: from.y + 2 };
    let outside = Vec2 { x: to.x + 1, y: to.y + 1 };
    assert!(button.hit_test(inside));
    assert!(!button.hit_test(outside));
    assert!(!button.hit_test(to));
    assert!(button.hit_test(from));
}

#[test]
fn node_hit_test_uses_child_offsets() {
    let mut row = button_row(3);
    assert!(row.hit_test(Vec2 { x: 150_000, y: 50_000 }));
    assert!(!row.hit_test(Vec2 { x: 3 * BUTTON_SIZE + 1, y: 50_000 }));
    assert!(!row.hit_test(Vec2 { x: 150_000, y: BUTTON_SIZE + 1 }));
}

#[test]
fn text_component_reports_its_dimensions() {
    let t = text("abc", 10);
    let dims = t.get_dimensions();
    assert_eq!(dims, Vec2 { x: 30, y: 10 });
}

#[test]
fn text_colors_and_fonts_survive_rendering() {
    let mut t = text("abc", 10);
    t.set_font(Font::Custom(String::from("mono")));
    t.set_em(20);
    t.set_text(String::from("zz"));
    let shapes = RawComponent::<()>::render(&t);
    assert_eq!(
        shapes[0],
        Shape::Text {
            text: String::from("zz"),
            font: Font::Custom(String::from("mono")),
            bottom_left: Vec2 { x: 0, y: 0 },
            em: 20,
        }
    );
}

#[test]
fn button_set_color_changes_the_face() {
    let mut b = ButtonComponent::default();
    b.set_color(Color { r: 100, g: 200, b: 300 });
    let shapes = RawComponent::<PressedEvent>::render(&b);
    match &shapes[0] {
        Shape::Rectangle { color, .. } => {
            assert_eq!(*color, Color { r: 100, g: 200, b: 300 });
        }
        other => panic!("expected a rectangle, got {:?}", other),
    }
}
