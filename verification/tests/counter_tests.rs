use ui::predefined::{
    BasicComponent, ButtonComponent, CounterComponent, PanelComponent, PressedEvent, TextComponent,
};
use ui::predefined::counter::format_decimal;
use ui::shape::{Font, Shape};
use ui::{Layout, Node, RawComponent, Ui};

fn counter_widget() -> Node<CounterComponent, BasicComponent> {
    Node {
        component: CounterComponent { value: 0 },
        layout: Layout::HorizontalBox(vec![
            BasicComponent::Button(ButtonComponent::default()),
            BasicComponent::Button(ButtonComponent::default()),
            BasicComponent::Text(TextComponent::new(
                String::from("0"),
                Font::Default,
                100_000,
            )),
        ]),
    }
}

fn label_of(node: &Node<CounterComponent, BasicComponent>) -> String {
    match &node.layout {
        Layout::HorizontalBox(children) => match &children[2] {
            BasicComponent::Text(t) => match &RawComponent::<PressedEvent>::render(t)[0] {
                Shape::Text { text, .. } => text.clone(),
                other => panic!("expected a text shape, got {:?}", other),
            },
            _ => panic!("expected the label"),
        },
        _ => panic!("expected a horizontal box"),
    }
}

/// One press-then-release cycle at the given pixel position.
fn click(ui: &mut Ui<Node<CounterComponent, BasicComponent>, PressedEvent>, pixel: (u32, u32)) {
    ui.set_mouse_position(Some(pixel));
    ui.set_mouse_pressed(true);
    ui.set_mouse_pressed(false);
}

#[test]
fn counter_counts_clicks_on_its_buttons() {
    let mut ui: Ui<Node<CounterComponent, BasicComponent>, PressedEvent> =
        Ui::new(counter_widget(), (800, 600));
    assert_eq!(ui.main_component.component.value, 0);
    assert_eq!(label_of(&ui.main_component), "0");
    // The increment button occupies logical x 100_000..200_000, which is
    // pixels 440..480; click it once.
    click(&mut ui, (460, 285));
    assert_eq!(ui.main_component.component.value, 1);
    assert_eq!(label_of(&ui.main_component), "1");
    // The decrement button occupies logical x 0..100_000: pixels 400..440.
    click(&mut ui, (420, 285));
    assert_eq!(ui.main_component.component.value, 0);
    assert_eq!(label_of(&ui.main_component), "0");
}

#[test]
fn clicks_elsewhere_do_not_count() {
    let mut ui: Ui<Node<CounterComponent, BasicComponent>, PressedEvent> =
        Ui::new(counter_widget(), (800, 600));
    click(&mut ui, (300, 100));
    assert_eq!(ui.main_component.component.value, 0);
    assert_eq!(label_of(&ui.main_component), "0");
}

#[test]
fn decrement_saturates_at_zero() {
    let mut ui: Ui<Node<CounterComponent, BasicComponent>, PressedEvent> =
        Ui::new(counter_widget(), (800, 600));
    click(&mut ui, (420, 285));
    assert_eq!(ui.main_component.component.value, 0);
    assert_eq!(label_of(&ui.main_component), "0");
}

#[test]
fn nested_widgets_dispatch_through_both_levels() {
    let outer: Node<PanelComponent<PressedEvent>, Node<CounterComponent, BasicComponent>> = Node {
        component: PanelComponent::new(),
        layout: Layout::SingleChild(Box::new(counter_widget())),
    };
    let mut ui: Ui<Node<PanelComponent<PressedEvent>, Node<CounterComponent, BasicComponent>>, PressedEvent> =
        Ui::new(outer, (800, 600));
    // A single child receives the pointer unchanged, so the click cycle
    // reaches the counter's increment button as before.
    ui.set_mouse_position(Some((460, 285)));
    ui.set_mouse_pressed(true);
    ui.set_mouse_pressed(false);
    match &ui.main_component.layout {
        Layout::SingleChild(inner) => {
            assert_eq!(inner.component.value, 1);
            assert_eq!(label_of(inner), "1");
        }
        _ => panic!("expected a single child"),
    }
}

#[test]
fn format_decimal_writes_exact_digits() {
    assert_eq!(format_decimal(0), "0");
    assert_eq!(format_decimal(7), "7");
    assert_eq!(format_decimal(10), "10");
    assert_eq!(format_decimal(90210), "90210");
    assert_eq!(format_decimal(u64::MAX), "18446744073709551615");
}
